use vstd::prelude::*;

verus! {

/// A YAML/JSON value: what scenario configs and payloads hold.
#[derive(Debug, PartialEq)]
pub enum Value {
    Null,
    Bool(bool),
    Int(i64),
    UInt(u64),
    Float(u64),
    Str(String),
    List(Vec<Value>),
    Mapping(Vec<(Value, Value)>),
}

pub enum ValueView {
    Null,
    Bool(bool),
    Int(int),
    Float(u64),
    Str(Seq<char>),
    List(Seq<ValueView>),
    Mapping(Seq<(ValueView, ValueView)>),
}

impl View for Value {
    type V = ValueView;

    open spec fn view(&self) -> ValueView
        decreases self, 0nat,
    {
        match self {
            Value::Null => ValueView::Null,
            Value::Bool(b) => ValueView::Bool(*b),
            Value::Int(n) => ValueView::Int(*n as int),
            Value::UInt(n) => ValueView::Int(*n as int),
            Value::Float(bits) => ValueView::Float(*bits),
            Value::Str(s) => ValueView::Str(s@),
            Value::List(items) => ValueView::List(view_list(items@)),
            Value::Mapping(entries) => ValueView::Mapping(view_entries(entries@)),
        }
    }
}

pub open spec fn view_list(items: Seq<Value>) -> Seq<ValueView>
    decreases items, 1nat,
{
    if items.len() == 0 {
        Seq::empty()
    } else {
        seq![items[0].view()] + view_list(items.drop_first())
    }
}

pub open spec fn view_entries(entries: Seq<(Value, Value)>) -> Seq<(ValueView, ValueView)>
    decreases entries, 1nat,
{
    if entries.len() == 0 {
        Seq::empty()
    } else {
        seq![(entries[0].0.view(), entries[0].1.view())] + view_entries(entries.drop_first())
    }
}

pub proof fn lemma_view_list(items: Seq<Value>)
    ensures
        view_list(items).len() == items.len(),
        forall|j: int| 0 <= j < items.len() ==> #[trigger] view_list(items)[j] == items[j]@,
    decreases items.len(),
{
    if items.len() > 0 {
        lemma_view_list(items.drop_first());
        assert(view_list(items) == seq![items[0]@] + view_list(items.drop_first()));
        assert forall|j: int| 0 <= j < items.len() implies #[trigger] view_list(items)[j] == items[j]@ by {
            if j > 0 {
                assert(items.drop_first()[j - 1] == items[j]);
            }
        }
    }
}

pub proof fn lemma_view_entries(entries: Seq<(Value, Value)>)
    ensures
        view_entries(entries).len() == entries.len(),
        forall|j: int|
            0 <= j < entries.len() ==> #[trigger] view_entries(entries)[j] == (entries[j].0@, entries[j].1@),
    decreases entries.len(),
{
    if entries.len() > 0 {
        lemma_view_entries(entries.drop_first());
        assert(view_entries(entries) == seq![(entries[0].0@, entries[0].1@)] + view_entries(entries.drop_first()));
        assert forall|j: int| 0 <= j < entries.len() implies #[trigger] view_entries(entries)[j] == (entries[j].0@, entries[j].1@) by {
            if j > 0 {
                assert(entries.drop_first()[j - 1] == entries[j]);
            }
        }
    }
}

impl Value {
    #[verifier::loop_isolation(false)]
    pub fn deep_clone(&self) -> (r: Value)
        ensures
            r@ == self@,
        decreases self,
    {
        match self {
            Value::Null => Value::Null,
            Value::Bool(b) => Value::Bool(*b),
            Value::Int(n) => Value::Int(*n),
            Value::UInt(n) => Value::UInt(*n),
            Value::Float(b) => Value::Float(*b),
            Value::Str(s) => Value::Str(s.clone()),
            Value::List(items) => {
                let mut out: Vec<Value> = Vec::new();
                let mut i: usize = 0;
                while i < items.len()
                    invariant
                        i <= items.len(),
                        out@.len() == i,
                        forall|j: int| 0 <= j < i ==> out@[j]@ == items@[j]@,
                    decreases items.len() - i,
                {
                    proof {
                        assert(decreases_to!(*self => (*self)->List_0));
                        assert(decreases_to!(*items => items@));
                        assert(decreases_to!(items@ => items@[i as int]));
                        assert(decreases_to!(self => items@[i as int]));
                    }
                    out.push(items[i].deep_clone());
                    i = i + 1;
                }
                let r = Value::List(out);
                proof {
                    lemma_view_list(out@);
                    lemma_view_list(items@);
                    assert(view_list(out@) =~= view_list(items@));
                }
                r
            },
            Value::Mapping(entries) => {
                let mut out: Vec<(Value, Value)> = Vec::new();
                let mut i: usize = 0;
                while i < entries.len()
                    invariant
                        i <= entries.len(),
                        out@.len() == i,
                        forall|j: int| 0 <= j < i ==> out@[j].0@ == entries@[j].0@ && out@[j].1@ == entries@[j].1@,
                    decreases entries.len() - i,
                {
                    proof {
                        assert(decreases_to!(*self => (*self)->Mapping_0));
                        assert(decreases_to!(*entries => entries@));
                        assert(decreases_to!(entries@ => entries@[i as int]));
                        assert(decreases_to!(entries@[i as int] => entries@[i as int].0));
                        assert(decreases_to!(entries@[i as int] => entries@[i as int].1));
                        assert(decreases_to!(self => entries@[i as int].0));
                        assert(decreases_to!(self => entries@[i as int].1));
                    }
                    let k = entries[i].0.deep_clone();
                    let v = entries[i].1.deep_clone();
                    out.push((k, v));
                    i = i + 1;
                }
                let r = Value::Mapping(out);
                proof {
                    lemma_view_entries(out@);
                    lemma_view_entries(entries@);
                    assert(view_entries(out@) =~= view_entries(entries@));
                }
                r
            },
        }
    }

    /// Whether two values are equal: integers by their number, whatever
    /// their width, floats by their bits, lists and mappings entry by entry
    /// in order.
    #[verifier::loop_isolation(false)]
    pub fn equals(&self, other: &Value) -> (r: bool)
        ensures
            r == (self@ == other@),
        decreases self,
    {
        match (self, other) {
            (Value::Null, Value::Null) => true,
            (Value::Bool(x), Value::Bool(y)) => *x == *y,
            (Value::Int(x), Value::Int(y)) => *x == *y,
            (Value::Int(x), Value::UInt(y)) => *x >= 0 && *x as u64 == *y,
            (Value::UInt(x), Value::Int(y)) => *y >= 0 && *x == *y as u64,
            (Value::UInt(x), Value::UInt(y)) => *x == *y,
            (Value::Float(x), Value::Float(y)) => *x == *y,
            (Value::Str(x), Value::Str(y)) => crate::text::str_eq(x.as_str(), y.as_str()),
            (Value::List(xs), Value::List(ys)) => {
                proof {
                    lemma_view_list(xs@);
                    lemma_view_list(ys@);
                }
                if xs.len() != ys.len() {
                    assert(view_list(xs@).len() != view_list(ys@).len());
                    return false;
                }
                let mut i: usize = 0;
                while i < xs.len()
                    invariant
                        i <= xs.len(),
                        xs.len() == ys.len(),
                        view_list(xs@).len() == xs.len(),
                        view_list(ys@).len() == ys.len(),
                        forall|j: int| 0 <= j < xs.len() ==> #[trigger] view_list(xs@)[j] == xs@[j]@,
                        forall|j: int| 0 <= j < ys.len() ==> #[trigger] view_list(ys@)[j] == ys@[j]@,
                        forall|j: int| 0 <= j < i ==> xs@[j]@ == ys@[j]@,
                    decreases xs.len() - i,
                {
                    proof {
                        assert(decreases_to!(*self => (*self)->List_0));
                        assert(decreases_to!(*xs => xs@));
                        assert(decreases_to!(xs@ => xs@[i as int]));
                        assert(decreases_to!(self => xs@[i as int]));
                    }
                    if !xs[i].equals(&ys[i]) {
                        assert(view_list(xs@)[i as int] != view_list(ys@)[i as int]);
                        return false;
                    }
                    i = i + 1;
                }
                assert(view_list(xs@) =~= view_list(ys@));
                true
            },
            (Value::Mapping(xs), Value::Mapping(ys)) => {
                proof {
                    lemma_view_entries(xs@);
                    lemma_view_entries(ys@);
                }
                if xs.len() != ys.len() {
                    assert(view_entries(xs@).len() != view_entries(ys@).len());
                    return false;
                }
                let mut i: usize = 0;
                while i < xs.len()
                    invariant
                        i <= xs.len(),
                        xs.len() == ys.len(),
                        view_entries(xs@).len() == xs.len(),
                        view_entries(ys@).len() == ys.len(),
                        forall|j: int|
                            0 <= j < xs.len() ==> #[trigger] view_entries(xs@)[j] == (xs@[j].0@, xs@[j].1@),
                        forall|j: int|
                            0 <= j < ys.len() ==> #[trigger] view_entries(ys@)[j] == (ys@[j].0@, ys@[j].1@),
                        forall|j: int| 0 <= j < i ==> xs@[j].0@ == ys@[j].0@ && xs@[j].1@ == ys@[j].1@,
                    decreases xs.len() - i,
                {
                    proof {
                        assert(decreases_to!(*self => (*self)->Mapping_0));
                        assert(decreases_to!(*xs => xs@));
                        assert(decreases_to!(xs@ => xs@[i as int]));
                        assert(decreases_to!(xs@[i as int] => xs@[i as int].0));
                        assert(decreases_to!(xs@[i as int] => xs@[i as int].1));
                        assert(decreases_to!(self => xs@[i as int].0));
                        assert(decreases_to!(self => xs@[i as int].1));
                    }
                    if !xs[i].0.equals(&ys[i].0) || !xs[i].1.equals(&ys[i].1) {
                        assert(view_entries(xs@)[i as int] != view_entries(ys@)[i as int]);
                        return false;
                    }
                    i = i + 1;
                }
                assert(view_entries(xs@) =~= view_entries(ys@));
                true
            },
            _ => false,
        }
    }
}

} // verus!

verus! {

/// `as_str`: the text of a string value.
pub open spec fn view_str(v: ValueView) -> Option<Seq<char>> {
    match v {
        ValueView::Str(s) => Some(s),
        _ => None,
    }
}

/// `as_i64`: an integer that fits `i64`.
pub open spec fn view_i64(v: ValueView) -> Option<int> {
    match v {
        ValueView::Int(n) => if i64::MIN <= n && n <= i64::MAX {
            Some(n)
        } else {
            None
        },
        _ => None,
    }
}

/// `as_u64`: a non-negative integer that fits `u64`.
pub open spec fn view_u64(v: ValueView) -> Option<int> {
    match v {
        ValueView::Int(n) => if 0 <= n && n <= u64::MAX {
            Some(n)
        } else {
            None
        },
        _ => None,
    }
}

pub open spec fn view_bool(v: ValueView) -> Option<bool> {
    match v {
        ValueView::Bool(b) => Some(b),
        _ => None,
    }
}

/// The value stored under the string key `key` in mapping entries.
pub open spec fn view_lookup(entries: Seq<(ValueView, ValueView)>, key: Seq<char>) -> Option<
    ValueView,
>
    decreases entries.len(),
{
    if entries.len() == 0 {
        None
    } else if entries[0].0 == ValueView::Str(key) {
        Some(entries[0].1)
    } else {
        view_lookup(entries.drop_first(), key)
    }
}

/// `get` on a mapping value: the value under a string key, if the value is a mapping.
pub open spec fn view_get(v: ValueView, key: Seq<char>) -> Option<ValueView> {
    match v {
        ValueView::Mapping(entries) => view_lookup(entries, key),
        _ => None,
    }
}

impl Value {
    pub fn as_str(&self) -> (r: Option<&String>)
        ensures
            match r {
                Some(s) => view_str(self@) == Some(s@),
                None => view_str(self@) is None,
            },
    {
        match self {
            Value::Str(s) => Some(s),
            _ => None,
        }
    }

    pub fn as_i64(&self) -> (r: Option<i64>)
        ensures
            match r {
                Some(n) => view_i64(self@) == Some(n as int),
                None => view_i64(self@) is None,
            },
    {
        match self {
            Value::Int(n) => Some(*n),
            Value::UInt(n) => if *n <= 9223372036854775807u64 {
                Some(*n as i64)
            } else {
                None
            },
            _ => None,
        }
    }

    pub fn as_u64(&self) -> (r: Option<u64>)
        ensures
            match r {
                Some(n) => view_u64(self@) == Some(n as int),
                None => view_u64(self@) is None,
            },
    {
        match self {
            Value::Int(n) => if *n >= 0 {
                Some(*n as u64)
            } else {
                None
            },
            Value::UInt(n) => Some(*n),
            _ => None,
        }
    }

    pub fn as_bool(&self) -> (r: Option<bool>)
        ensures
            r == view_bool(self@),
    {
        match self {
            Value::Bool(b) => Some(*b),
            _ => None,
        }
    }

    pub fn is_null(&self) -> (r: bool)
        ensures
            r == (self@ == ValueView::Null),
    {
        match self {
            Value::Null => true,
            _ => false,
        }
    }

    pub fn as_list(&self) -> (r: Option<&Vec<Value>>)
        ensures
            match r {
                Some(items) => self@ == ValueView::List(view_list(items@)),
                None => !(self@ is List),
            },
    {
        match self {
            Value::List(items) => Some(items),
            _ => None,
        }
    }

    pub fn as_mapping(&self) -> (r: Option<&Vec<(Value, Value)>>)
        ensures
            match r {
                Some(entries) => self@ == ValueView::Mapping(view_entries(entries@)),
                None => !(self@ is Mapping),
            },
    {
        match self {
            Value::Mapping(entries) => Some(entries),
            _ => None,
        }
    }

    /// A string value.
    pub fn text(s: &str) -> (r: Value)
        ensures
            r@ == ValueView::Str(s@),
    {
        Value::Str(crate::text::to_owned(s))
    }
}

/// The value under the string key `key`, as `Mapping::get` finds it.
pub fn mapping_get<'a>(entries: &'a Vec<(Value, Value)>, key: &str) -> (r: Option<&'a Value>)
    ensures
        match r {
            Some(v) => view_lookup(view_entries(entries@), key@) == Some(v@),
            None => view_lookup(view_entries(entries@), key@) is None,
        },
{
    proof {
        lemma_view_entries(entries@);
    }
    let ghost all = view_entries(entries@);
    assert(all.skip(0) =~= all);
    let mut i: usize = 0;
    while i < entries.len()
        invariant
            i <= entries.len(),
            all == view_entries(entries@),
            all.len() == entries.len(),
            forall|j: int| 0 <= j < all.len() ==> #[trigger] all[j] == (entries@[j].0@, entries@[j].1@),
            view_lookup(all, key@) == view_lookup(all.skip(i as int), key@),
        decreases entries.len() - i,
    {
        let ghost rest = all.skip(i as int);
        assert(rest[0] == all[i as int]);
        assert(rest.drop_first() =~= all.skip(i + 1));
        match &entries[i].0 {
            Value::Str(k) => {
                if crate::text::str_eq(k.as_str(), key) {
                    return Some(&entries[i].1);
                }
            },
            _ => {},
        }
        i = i + 1;
    }
    assert(all.skip(i as int).len() == 0);
    None
}

/// `get` on a mapping value.
pub fn value_get<'a>(v: &'a Value, key: &str) -> (r: Option<&'a Value>)
    ensures
        match r {
            Some(x) => view_get(v@, key@) == Some(x@),
            None => view_get(v@, key@) is None,
        },
{
    match v {
        Value::Mapping(entries) => mapping_get(entries, key),
        _ => None,
    }
}

} // verus!

//! The JSON form of a YAML value, as a YAML-to-JSON conversion produces it:
//! mapping keys become text (integers and booleans spelled out), objects
//! keep one member per key (the last one given) in code-point key order,
//! and non-finite floats become `null`. Keys of other kinds cannot be
//! represented, and the conversion fails.

use vstd::prelude::*;

use crate::strmap::{distinct_keys, entries_map, keys_of, lemma_entries_map, sorted_keys, StrMap};
use crate::text::{lemma_lex_asymmetric, lemma_lex_irreflexive, lex_lt, signed_decimal, i64_to_string, to_owned, u64_to_string};
use crate::value::{lemma_view_entries, lemma_view_list, view_entries, view_list, Value, ValueView};

verus! {

/// Whether the bits of an `f64` stand for a finite number.
pub open spec fn finite_bits(bits: u64) -> bool {
    (bits >> 52u64) & 0x7ffu64 != 0x7ffu64
}

/// The text of a mapping key in a JSON object, or `None` when the key
/// cannot be one.
pub open spec fn json_key(k: ValueView) -> Option<Seq<char>> {
    match k {
        ValueView::Str(s) => Some(s),
        ValueView::Bool(b) => Some(
            if b {
                "true"@
            } else {
                "false"@
            },
        ),
        ValueView::Int(n) => Some(signed_decimal(n)),
        _ => None,
    }
}

/// The members of a sorted, one-per-key object: the entries whose keys
/// increase in code-point order and that hold exactly `m`.
pub open spec fn sorted_members(m: Map<Seq<char>, ValueView>) -> Seq<(ValueView, ValueView)> {
    as_members(sorted_entries(m))
}

/// The entries, in increasing key order, that hold exactly `m`.
pub open spec fn sorted_entries(m: Map<Seq<char>, ValueView>) -> Seq<(Seq<char>, ValueView)> {
    choose|s: Seq<(Seq<char>, ValueView)>| sorted_keys(keys_of(s)) && entries_map(s) == m
}

/// Entries with text keys, as mapping entries.
pub open spec fn as_members(s: Seq<(Seq<char>, ValueView)>) -> Seq<(ValueView, ValueView)> {
    s.map_values(|e: (Seq<char>, ValueView)| (ValueView::Str(e.0), e.1))
}

/// The JSON form of a value, or `None` when it has none.
pub open spec fn json_of(v: ValueView) -> Option<ValueView>
    decreases v, 0nat,
{
    match v {
        ValueView::Float(bits) => Some(
            if finite_bits(bits) {
                ValueView::Float(bits)
            } else {
                ValueView::Null
            },
        ),
        ValueView::List(items) => match json_items(items) {
            Some(js) => Some(ValueView::List(js)),
            None => None,
        },
        ValueView::Mapping(entries) => match json_members(entries) {
            Some(m) => Some(ValueView::Mapping(sorted_members(m))),
            None => None,
        },
        _ => Some(v),
    }
}

pub open spec fn json_items(items: Seq<ValueView>) -> Option<Seq<ValueView>>
    decreases items, 1nat,
{
    if items.len() == 0 {
        Some(Seq::empty())
    } else {
        match json_of(items[0]) {
            None => None,
            Some(first) => match json_items(items.drop_first()) {
                None => None,
                Some(rest) => Some(seq![first] + rest),
            },
        }
    }
}

/// The object that mapping entries make: later members replace earlier
/// ones with the same key text.
pub open spec fn json_members(entries: Seq<(ValueView, ValueView)>) -> Option<Map<Seq<char>, ValueView>>
    decreases entries, 1nat,
{
    if entries.len() == 0 {
        Some(Map::empty())
    } else {
        let last = entries[entries.len() - 1];
        match json_members(entries.drop_last()) {
            None => None,
            Some(m) => match json_key(last.0) {
                None => None,
                Some(k) => match json_of(last.1) {
                    None => None,
                    Some(v) => Some(m.insert(k, v)),
                },
            },
        }
    }
}

/// The JSON form of a value, `null` when it has none.
pub open spec fn json_or_null(v: ValueView) -> ValueView {
    match json_of(v) {
        Some(j) => j,
        None => ValueView::Null,
    }
}

// ---------------------------------------------------------------------------
// Sorted entries are unique
// ---------------------------------------------------------------------------

proof fn lemma_sorted_distinct<V>(s: Seq<(Seq<char>, V)>)
    requires
        sorted_keys(keys_of(s)),
    ensures
        distinct_keys(s),
{
    assert forall|i: int, j: int|
        0 <= i < s.len() && 0 <= j < s.len() && i != j implies #[trigger] s[i].0 != #[trigger] s[j].0 by {
        assert(keys_of(s)[i] == s[i].0);
        assert(keys_of(s)[j] == s[j].0);
        if i < j {
            lemma_lex_irreflexive(s[i].0);
        } else {
            lemma_lex_irreflexive(s[j].0);
        }
    }
}

proof fn lemma_sorted_init<V>(s: Seq<(Seq<char>, V)>)
    requires
        s.len() > 0,
        sorted_keys(keys_of(s)),
    ensures
        sorted_keys(keys_of(s.drop_last())),
        entries_map(s.drop_last()) == entries_map(s).remove(s.last().0),
{
    let init = s.drop_last();
    assert forall|i: int, j: int| 0 <= i < j < keys_of(init).len() implies lex_lt(
        #[trigger] keys_of(init)[i],
        #[trigger] keys_of(init)[j],
    ) by {
        assert(keys_of(init)[i] == keys_of(s)[i]);
        assert(keys_of(init)[j] == keys_of(s)[j]);
    }
    lemma_sorted_distinct(s);
    lemma_sorted_distinct(init);
    lemma_entries_map(init);
    assert forall|i: int| 0 <= i < init.len() implies init[i].0 != s.last().0 by {
        assert(init[i] == s[i]);
    }
    assert(!entries_map(init).contains_key(s.last().0));
    assert(entries_map(s) == entries_map(init).insert(s.last().0, s.last().1));
    assert(entries_map(init) =~= entries_map(s).remove(s.last().0));
}

/// Two key-sorted entry sequences that hold the same map are equal.
pub proof fn lemma_sorted_entries_unique<V>(s1: Seq<(Seq<char>, V)>, s2: Seq<(Seq<char>, V)>)
    requires
        sorted_keys(keys_of(s1)),
        sorted_keys(keys_of(s2)),
        entries_map(s1) == entries_map(s2),
    ensures
        s1 == s2,
    decreases s1.len(),
{
    lemma_sorted_distinct(s1);
    lemma_sorted_distinct(s2);
    lemma_entries_map(s1);
    lemma_entries_map(s2);
    if s1.len() == 0 {
        assert(s2.len() == 0);
        assert(s1 =~= s2);
    } else {
        let n1 = s1.len() - 1;
        let n2 = s2.len() - 1;
        let k1 = s1[n1].0;
        let k2 = s2[n2].0;
        let m = entries_map(s1);
        assert(m.contains_key(k1));
        assert(m.contains_key(k2));
        if k1 != k2 {
            let j = choose|j: int| 0 <= j < s2.len() && s2[j].0 == k1;
            let i = choose|i: int| 0 <= i < s1.len() && s1[i].0 == k2;
            assert(j < n2);
            assert(i < n1);
            assert(keys_of(s2)[j] == k1 && keys_of(s2)[n2] == k2);
            assert(keys_of(s1)[i] == k2 && keys_of(s1)[n1] == k1);
            assert(lex_lt(k1, k2));
            assert(lex_lt(k2, k1));
            lemma_lex_asymmetric(k1, k2);
        }
        assert(s1[n1].1 == m[k1]);
        assert(s2[n2].1 == m[k2]);
        lemma_sorted_init(s1);
        lemma_sorted_init(s2);
        lemma_sorted_entries_unique(s1.drop_last(), s2.drop_last());
        assert(s1 =~= s1.drop_last().push(s1[n1]));
        assert(s2 =~= s2.drop_last().push(s2[n2]));
    }
}

// ---------------------------------------------------------------------------
// Conversion
// ---------------------------------------------------------------------------

proof fn lemma_json_items_push(s: Seq<ValueView>, x: ValueView)
    ensures
        json_items(s.push(x)) == match json_items(s) {
            None => None,
            Some(a) => match json_of(x) {
                None => None,
                Some(b) => Some(a.push(b)),
            },
        },
    decreases s.len(),
{
    let sp = s.push(x);
    assert(sp[0] == if s.len() == 0 { x } else { s[0] });
    if s.len() == 0 {
        assert(sp.drop_first() =~= Seq::<ValueView>::empty());
        assert(json_items(sp.drop_first()) == Some(Seq::<ValueView>::empty()));
        match json_of(x) {
            Some(b) => {
                assert(seq![b] + Seq::<ValueView>::empty() =~= Seq::<ValueView>::empty().push(b));
                assert(json_items(sp) == Some(seq![b] + Seq::<ValueView>::empty()));
            },
            None => {
                assert(json_items(sp) is None);
            },
        }
    } else {
        assert(sp.drop_first() =~= s.drop_first().push(x));
        lemma_json_items_push(s.drop_first(), x);
        match json_of(s[0]) {
            None => {
                assert(json_items(sp) is None);
                assert(json_items(s) is None);
            },
            Some(f) => {
                match json_items(s.drop_first()) {
                    None => {
                        assert(json_items(sp.drop_first()) is None);
                        assert(json_items(sp) is None);
                        assert(json_items(s) is None);
                    },
                    Some(r) => {
                        assert(json_items(s) == Some(seq![f] + r));
                        match json_of(x) {
                            None => {
                                assert(json_items(sp) is None);
                            },
                            Some(b) => {
                                assert(json_items(sp.drop_first()) == Some(r.push(b)));
                                assert(seq![f] + r.push(b) =~= (seq![f] + r).push(b));
                                assert(json_items(sp) == Some(seq![f] + r.push(b)));
                            },
                        }
                    },
                }
            },
        }
    }
}

proof fn lemma_json_items_prefix_none(s: Seq<ValueView>, k: int)
    requires
        0 <= k <= s.len(),
        json_items(s.take(k)) is None,
    ensures
        json_items(s) is None,
    decreases s.len() - k,
{
    if k < s.len() {
        assert(s.take(k + 1) =~= s.take(k).push(s[k]));
        lemma_json_items_push(s.take(k), s[k]);
        lemma_json_items_prefix_none(s, k + 1);
    } else {
        assert(s.take(k) =~= s);
    }
}

proof fn lemma_json_members_prefix_none(es: Seq<(ValueView, ValueView)>, k: int)
    requires
        0 <= k <= es.len(),
        json_members(es.take(k)) is None,
    ensures
        json_members(es) is None,
    decreases es.len(),
{
    if es.len() > k {
        assert(es.drop_last().take(k) =~= es.take(k));
        lemma_json_members_prefix_none(es.drop_last(), k);
    } else {
        assert(es.take(k) =~= es);
    }
}

/// The JSON text of a mapping key, or `None` when the key cannot be one.
fn key_text(k: &Value) -> (r: Option<String>)
    ensures
        match r {
            Some(t) => json_key(k@) == Some(t@),
            None => json_key(k@) is None,
        },
{
    match k {
        Value::Str(s) => Some(s.clone()),
        Value::Bool(b) => if *b {
            Some(to_owned("true"))
        } else {
            Some(to_owned("false"))
        },
        Value::Int(n) => Some(i64_to_string(*n)),
        Value::UInt(n) => Some(u64_to_string(*n)),
        _ => None,
    }
}

/// Converts a value to its JSON form; `None` when it has none.
#[verifier::loop_isolation(false)]
pub fn to_json(v: &Value) -> (r: Option<Value>)
    ensures
        match r {
            Some(j) => json_of(v@) == Some(j@),
            None => json_of(v@) is None,
        },
    decreases v,
{
    match v {
        Value::Null => Some(Value::Null),
        Value::Bool(b) => Some(Value::Bool(*b)),
        Value::Int(n) => Some(Value::Int(*n)),
        Value::UInt(n) => Some(Value::UInt(*n)),
        Value::Float(bits) => {
            if (*bits >> 52u64) & 0x7ffu64 != 0x7ffu64 {
                Some(Value::Float(*bits))
            } else {
                Some(Value::Null)
            }
        },
        Value::Str(s) => Some(Value::Str(s.clone())),
        Value::List(items) => {
            let ghost vs = view_list(items@);
            proof {
                lemma_view_list(items@);
            }
            let mut out: Vec<Value> = Vec::new();
            let mut i: usize = 0;
            assert(vs.take(0) =~= Seq::<ValueView>::empty());
            assert(view_list(out@) =~= Seq::<ValueView>::empty());
            while i < items.len()
                invariant
                    i <= items.len(),
                    vs == view_list(items@),
                    json_items(vs.take(i as int)) == Some(view_list(out@)),
                decreases items.len() - i,
            {
                proof {
                    assert(decreases_to!(*v => (*v)->List_0));
                    assert(decreases_to!(*items => items@));
                    assert(decreases_to!(items@ => items@[i as int]));
                    assert(decreases_to!(v => items@[i as int]));
                }
                assert(vs.take(i + 1) =~= vs.take(i as int).push(items@[i as int]@));
                proof {
                    lemma_json_items_push(vs.take(i as int), items@[i as int]@);
                }
                match to_json(&items[i]) {
                    Some(x) => {
                        let ghost before_items = out@;
                        let ghost before = view_list(out@);
                        out.push(x);
                        proof {
                            lemma_view_list(out@);
                            lemma_view_list(before_items);
                            assert forall|q: int| 0 <= q < before_items.len() implies out@[q] == before_items[q] by {}
                        }
                        assert(view_list(out@) =~= before.push(x@));
                    },
                    None => {
                        proof {
                            assert(json_items(vs.take(i + 1)) is None);
                            lemma_json_items_prefix_none(vs, i + 1);
                        }
                        return None;
                    },
                }
                i = i + 1;
            }
            assert(vs.take(items.len() as int) =~= vs);
            Some(Value::List(out))
        },
        Value::Mapping(entries) => {
            let ghost es = view_entries(entries@);
            proof {
                lemma_view_entries(entries@);
            }
            let mut obj: StrMap<Value> = StrMap::new();
            let ghost mut gm: Map<Seq<char>, ValueView> = Map::empty();
            let mut i: usize = 0;
            assert(es.take(0) =~= Seq::<(ValueView, ValueView)>::empty());
            while i < entries.len()
                invariant
                    i <= entries.len(),
                    es == view_entries(entries@),
                    json_members(es.take(i as int)) == Some(gm),
                    forall|k: Seq<char>| #[trigger] obj@.contains_key(k) <==> gm.contains_key(k),
                    forall|k: Seq<char>| #[trigger] obj@.contains_key(k) ==> obj@[k]@ == gm[k],
                decreases entries.len() - i,
            {
                proof {
                    assert(decreases_to!(*v => (*v)->Mapping_0));
                    assert(decreases_to!(*entries => entries@));
                    assert(decreases_to!(entries@ => entries@[i as int]));
                    assert(decreases_to!(entries@[i as int] => entries@[i as int].1));
                    assert(decreases_to!(v => entries@[i as int].1));
                }
                let ghost prefix = es.take(i + 1);
                assert(prefix.drop_last() =~= es.take(i as int));
                assert(prefix[prefix.len() - 1] == (entries@[i as int].0@, entries@[i as int].1@));
                let key = match key_text(&entries[i].0) {
                    Some(t) => t,
                    None => {
                        proof {
                            lemma_json_members_prefix_none(es, i + 1);
                        }
                        return None;
                    },
                };
                let value = match to_json(&entries[i].1) {
                    Some(x) => x,
                    None => {
                        proof {
                            lemma_json_members_prefix_none(es, i + 1);
                        }
                        return None;
                    },
                };
                let ghost kv = key@;
                let ghost vv = value@;
                obj.insert(key, value);
                proof {
                    gm = gm.insert(kv, vv);
                }
                i = i + 1;
            }
            assert(es.take(entries.len() as int) =~= es);
            proof {
                use_type_invariant(&obj);
                obj.lemma_wf();
            }
            let n = obj.len();
            let ghost es_obj = obj.entry_seq();
            let mut out: Vec<(Value, Value)> = Vec::new();
            let mut j: usize = 0;
            while j < n
                invariant
                    j <= n,
                    n == es_obj.len(),
                    es_obj == obj.entry_seq(),
                    out@.len() == j,
                    forall|q: int|
                        0 <= q < j ==> (#[trigger] out@[q]).0@ == ValueView::Str(es_obj[q].0)
                            && out@[q].1@ == es_obj[q].1@,
                decreases n - j,
            {
                let k = obj.key_at(j).clone();
                let x = obj.value_at(j).deep_clone();
                out.push((Value::Str(k), x));
                j = j + 1;
            }
            let ghost t = es_obj.map_values(|e: (Seq<char>, Value)| (e.0, e.1@));
            proof {
                assert(keys_of(t) =~= keys_of(es_obj));
                lemma_sorted_distinct(t);
                lemma_entries_map(t);
                assert forall|k: Seq<char>| entries_map(t).contains_key(k) <==> gm.contains_key(k) by {
                    if entries_map(t).contains_key(k) {
                        let q = choose|q: int| 0 <= q < t.len() && t[q].0 == k;
                        assert(es_obj[q].0 == k);
                        assert(obj@.contains_key(k));
                    }
                    if gm.contains_key(k) {
                        assert(obj@.contains_key(k));
                        let q = choose|q: int| 0 <= q < es_obj.len() && es_obj[q].0 == k;
                        assert(t[q].0 == k);
                    }
                }
                assert forall|k: Seq<char>| #[trigger] entries_map(t).contains_key(k) implies entries_map(t)[k] == gm[k] by {
                    let q = choose|q: int| 0 <= q < t.len() && t[q].0 == k;
                    assert(es_obj[q].0 == k);
                    assert(obj@[k] == es_obj[q].1);
                }
                assert(entries_map(t) =~= gm);
                assert(sorted_keys(keys_of(t)));
                assert(sorted_keys(keys_of(t)) && entries_map(t) == gm);
                let chosen = sorted_entries(gm);
                assert(sorted_keys(keys_of(chosen)) && entries_map(chosen) == gm);
                lemma_sorted_entries_unique(chosen, t);
                lemma_view_entries(out@);
                let tm = as_members(t);
                assert(sorted_members(gm) == tm);
                assert forall|q: int| 0 <= q < tm.len() implies view_entries(out@)[q] == tm[q] by {
                    assert(out@[q].0@ == ValueView::Str(es_obj[q].0));
                }
                assert(view_entries(out@) =~= sorted_members(gm));
            }
            Some(Value::Mapping(out))
        },
    }
}

/// The JSON form of a value, `Null` when it has none.
pub fn to_json_or_null(v: &Value) -> (r: Value)
    ensures
        r@ == json_or_null(v@),
{
    match to_json(v) {
        Some(j) => j,
        None => Value::Null,
    }
}

/// Converts each value of a key/value map to its JSON form, `Null` where
/// it has none; the keys stay.
#[verifier::loop_isolation(false)]
pub fn yaml_map_to_json(map: &StrMap<Value>) -> (r: StrMap<Value>)
    ensures
        r@.dom() == map@.dom(),
        forall|k: Seq<char>| #[trigger] r@.contains_key(k) ==> r@[k]@ == json_or_null(map@[k]@),
{
    proof {
        use_type_invariant(map);
        map.lemma_wf();
    }
    let mut out: StrMap<Value> = StrMap::new();
    let n = map.len();
    let ghost es = map.entry_seq();
    let mut i: usize = 0;
    while i < n
        invariant
            i <= n,
            n == es.len(),
            es == map.entry_seq(),
            forall|k: Seq<char>| #[trigger] out@.contains_key(k) <==> exists|j: int| 0 <= j < i && es[j].0 == k,
            forall|k: Seq<char>| #[trigger] out@.contains_key(k) ==> out@[k]@ == json_or_null(map@[k]@),
        decreases n - i,
    {
        let k = map.key_at(i).clone();
        let v = to_json_or_null(map.value_at(i));
        let ghost kv = k@;
        assert(map@[es[i as int].0] == es[i as int].1);
        out.insert(k, v);
        proof {
            assert forall|k2: Seq<char>| #[trigger] out@.contains_key(k2) <==> exists|j: int| 0 <= j < i + 1 && es[j].0 == k2 by {
                if k2 == kv {
                    assert(es[i as int].0 == k2);
                }
            }
        }
        i = i + 1;
    }
    proof {
        assert forall|k: Seq<char>| out@.dom().contains(k) <==> map@.dom().contains(k) by {
            if map@.contains_key(k) {
                let j = choose|j: int| 0 <= j < es.len() && es[j].0 == k;
                assert(out@.contains_key(k));
            }
        }
        assert(out@.dom() =~= map@.dom());
    }
    out
}

// ---------------------------------------------------------------------------
// JSON text of strings
// ---------------------------------------------------------------------------

pub open spec fn lower_hex_digit(d: nat) -> char {
    if d < 10 {
        ((d + 48) as u32) as char
    } else {
        ((d + 87) as u32) as char
    }
}

/// How JSON text writes one character inside a string: quotes and
/// backslashes escaped, the common controls by name, other controls as
/// `\u00XX` with lowercase hex digits.
pub open spec fn json_char(c: char) -> Seq<char> {
    if c == '"' {
        seq!['\\', '"']
    } else if c == '\\' {
        seq!['\\', '\\']
    } else if c == '\u{8}' {
        seq!['\\', 'b']
    } else if c == '\u{c}' {
        seq!['\\', 'f']
    } else if c == '\n' {
        seq!['\\', 'n']
    } else if c == '\r' {
        seq!['\\', 'r']
    } else if c == '\t' {
        seq!['\\', 't']
    } else if (c as u32) < 0x20 {
        seq!['\\', 'u', '0', '0', lower_hex_digit((c as u32 / 16) as nat), lower_hex_digit((c as u32 % 16) as nat)]
    } else {
        seq![c]
    }
}

pub open spec fn json_chars(s: Seq<char>) -> Seq<char>
    decreases s.len(),
{
    if s.len() == 0 {
        Seq::empty()
    } else {
        json_chars(s.drop_last()) + json_char(s.last())
    }
}

/// A string as JSON text: quoted and escaped.
pub open spec fn json_string(s: Seq<char>) -> Seq<char> {
    seq!['"'] + json_chars(s) + seq!['"']
}

fn hex_char(d: u32) -> (c: char)
    requires
        d < 16,
    ensures
        c == lower_hex_digit(d as nat),
{
    if d < 10 {
        ((d + 48) as u8) as char
    } else {
        ((d + 87) as u8) as char
    }
}

/// Writes a string as JSON text.
pub fn json_quote(s: &str) -> (r: String)
    ensures
        r@ == json_string(s@),
{
    let chars = crate::text::chars_of(s);
    let mut out = String::new();
    crate::text::push_char(&mut out, '"');
    let mut i: usize = 0;
    assert(chars@.take(0) =~= Seq::<char>::empty());
    while i < chars.len()
        invariant
            i <= chars.len(),
            chars@ == s@,
            out@ == seq!['"'] + json_chars(chars@.take(i as int)),
        decreases chars.len() - i,
    {
        let c = chars[i];
        assert(chars@.take(i + 1).drop_last() =~= chars@.take(i as int));
        assert(chars@.take(i + 1).last() == c);
        let ghost before = out@;
        if c == '"' {
            crate::text::push_char(&mut out, '\\');
            crate::text::push_char(&mut out, '"');
        } else if c == '\\' {
            crate::text::push_char(&mut out, '\\');
            crate::text::push_char(&mut out, '\\');
        } else if c == '\u{8}' {
            crate::text::push_char(&mut out, '\\');
            crate::text::push_char(&mut out, 'b');
        } else if c == '\u{c}' {
            crate::text::push_char(&mut out, '\\');
            crate::text::push_char(&mut out, 'f');
        } else if c == '\n' {
            crate::text::push_char(&mut out, '\\');
            crate::text::push_char(&mut out, 'n');
        } else if c == '\r' {
            crate::text::push_char(&mut out, '\\');
            crate::text::push_char(&mut out, 'r');
        } else if c == '\t' {
            crate::text::push_char(&mut out, '\\');
            crate::text::push_char(&mut out, 't');
        } else if (c as u32) < 0x20 {
            crate::text::push_char(&mut out, '\\');
            crate::text::push_char(&mut out, 'u');
            crate::text::push_char(&mut out, '0');
            crate::text::push_char(&mut out, '0');
            crate::text::push_char(&mut out, hex_char((c as u32) / 16));
            crate::text::push_char(&mut out, hex_char((c as u32) % 16));
        } else {
            crate::text::push_char(&mut out, c);
        }
        assert(out@ =~= before + json_char(c));
        i = i + 1;
    }
    assert(chars@.take(chars.len() as int) =~= chars@);
    crate::text::push_char(&mut out, '"');
    out
}

} // verus!

//! `StrMap<V>`: a map from strings to values that iterates its entries in
//! key order, as `BTreeMap<String, V>` does. Entries are held sorted by the
//! code-point order of their keys, which also makes every key unique.

use vstd::prelude::*;

use crate::value::{Value, ValueView};

use crate::text::{chars_of, compare_chars, lemma_lex_asymmetric, lemma_lex_irreflexive,
    lemma_lex_total, lemma_lex_transitive, lex_lt, str_eq};

verus! {

/// Keys strictly increasing in code-point order.
pub open spec fn sorted_keys(keys: Seq<Seq<char>>) -> bool {
    forall|i: int, j: int| 0 <= i < j < keys.len() ==> lex_lt(#[trigger] keys[i], #[trigger] keys[j])
}

/// The map that a sequence of entries with distinct keys stands for.
pub open spec fn entries_map<V>(entries: Seq<(Seq<char>, V)>) -> Map<Seq<char>, V>
    decreases entries.len(),
{
    if entries.len() == 0 {
        Map::empty()
    } else {
        entries_map(entries.drop_last()).insert(entries.last().0, entries.last().1)
    }
}

pub open spec fn keys_of<V>(entries: Seq<(Seq<char>, V)>) -> Seq<Seq<char>> {
    entries.map_values(|e: (Seq<char>, V)| e.0)
}

pub open spec fn distinct_keys<V>(entries: Seq<(Seq<char>, V)>) -> bool {
    forall|i: int, j: int|
        0 <= i < entries.len() && 0 <= j < entries.len() && i != j ==> #[trigger] entries[i].0
            != #[trigger] entries[j].0
}

pub proof fn lemma_entries_map<V>(entries: Seq<(Seq<char>, V)>)
    requires
        distinct_keys(entries),
    ensures
        forall|k: Seq<char>|
            #[trigger] entries_map(entries).contains_key(k) <==> exists|i: int|
                0 <= i < entries.len() && entries[i].0 == k,
        forall|i: int|
            0 <= i < entries.len() ==> entries_map(entries).contains_key(#[trigger] entries[i].0)
                && entries_map(entries)[entries[i].0] == entries[i].1,
        entries_map(entries).dom().finite(),
        entries_map(entries).len() == entries.len(),
    decreases entries.len(),
{
    if entries.len() > 0 {
        let init = entries.drop_last();
        assert(distinct_keys(init)) by {
            assert forall|i: int, j: int|
                0 <= i < init.len() && 0 <= j < init.len() && i != j implies #[trigger] init[i].0
                != #[trigger] init[j].0 by {
                assert(init[i] == entries[i]);
                assert(init[j] == entries[j]);
            }
        }
        lemma_entries_map(init);
        let last = entries.last();
        assert forall|i: int| 0 <= i < init.len() implies init[i].0 != last.0 by {
            assert(init[i] == entries[i]);
            assert(last == entries[entries.len() - 1]);
        }
        assert(!entries_map(init).contains_key(last.0));
        assert forall|k: Seq<char>|
            #[trigger] entries_map(entries).contains_key(k) <==> exists|i: int|
                0 <= i < entries.len() && entries[i].0 == k by {
            if entries_map(entries).contains_key(k) {
                if k == last.0 {
                    assert(entries[entries.len() - 1].0 == k);
                } else {
                    let i = choose|i: int| 0 <= i < init.len() && init[i].0 == k;
                    assert(entries[i] == init[i]);
                }
            }
            if exists|i: int| 0 <= i < entries.len() && entries[i].0 == k {
                let i = choose|i: int| 0 <= i < entries.len() && entries[i].0 == k;
                if i < entries.len() - 1 {
                    assert(init[i] == entries[i]);
                }
            }
        }
        assert forall|i: int| 0 <= i < entries.len() implies entries_map(entries).contains_key(
            #[trigger] entries[i].0,
        ) && entries_map(entries)[entries[i].0] == entries[i].1 by {
            if i < entries.len() - 1 {
                assert(init[i] == entries[i]);
            }
        }
    }
}

#[derive(Debug, PartialEq)]
pub struct StrMap<V> {
    entries: Vec<(String, V)>,
}

impl<V> StrMap<V> {
    /// The entries in iteration order, keys taken by their characters.
    pub closed spec fn entry_seq(&self) -> Seq<(Seq<char>, V)> {
        self.entries@.map_values(|e: (String, V)| (e.0@, e.1))
    }

    pub open spec fn key_seq(&self) -> Seq<Seq<char>> {
        keys_of(self.entry_seq())
    }

    pub open spec fn view(&self) -> Map<Seq<char>, V> {
        entries_map(self.entry_seq())
    }

    #[verifier::type_invariant]
    pub closed spec fn well_formed(&self) -> bool {
        sorted_keys(keys_of(self.entry_seq()))
    }

    /// Facts every map satisfies: its keys are sorted and distinct, and its
    /// view holds exactly its entries.
    pub proof fn lemma_wf(&self)
        requires
            self.well_formed(),
        ensures
            sorted_keys(self.key_seq()),
            distinct_keys(self.entry_seq()),
            self.key_seq().len() == self.entry_seq().len(),
            forall|k: Seq<char>|
                #[trigger] self@.contains_key(k) <==> exists|i: int|
                    0 <= i < self.entry_seq().len() && self.entry_seq()[i].0 == k,
            forall|i: int|
                0 <= i < self.entry_seq().len() ==> self@.contains_key(
                    #[trigger] self.entry_seq()[i].0,
                ) && self@[self.entry_seq()[i].0] == self.entry_seq()[i].1,
            self@.dom().finite(),
            self@.len() == self.entry_seq().len(),
    {
        let es = self.entry_seq();
        assert forall|i: int, j: int|
            0 <= i < es.len() && 0 <= j < es.len() && i != j implies #[trigger] es[i].0
            != #[trigger] es[j].0 by {
            assert(keys_of(es)[i] == es[i].0);
            assert(keys_of(es)[j] == es[j].0);
            if i < j {
                lemma_lex_irreflexive(es[i].0);
            } else {
                lemma_lex_irreflexive(es[j].0);
            }
        }
        lemma_entries_map(es);
    }

    pub fn new() -> (m: Self)
        ensures
            m@ == Map::<Seq<char>, V>::empty(),
            m.entry_seq().len() == 0,
    {
        let m = StrMap { entries: Vec::new() };
        assert(m.entry_seq() =~= Seq::empty());
        m
    }

    pub fn len(&self) -> (n: usize)
        ensures
            n == self.entry_seq().len(),
            n == self@.len(),
    {
        proof {
            use_type_invariant(self);
            self.lemma_wf();
        }
        self.entries.len()
    }

    pub fn is_empty(&self) -> (b: bool)
        ensures
            b == (self@.len() == 0),
            b == (self.entry_seq().len() == 0),
    {
        proof {
            use_type_invariant(self);
            self.lemma_wf();
        }
        self.entries.len() == 0
    }

    /// Position of `key` among the entries.
    pub fn position(&self, key: &str) -> (r: Option<usize>)
        ensures
            match r {
                Some(i) => i < self.entry_seq().len() && self.entry_seq()[i as int].0 == key@,
                None => !self@.contains_key(key@),
            },
    {
        proof {
            use_type_invariant(self);
            self.lemma_wf();
        }
        let mut i: usize = 0;
        while i < self.entries.len()
            invariant
                i <= self.entries.len(),
                self.entry_seq().len() == self.entries@.len(),
                forall|j: int| 0 <= j < i ==> self.entry_seq()[j].0 != key@,
            decreases self.entries.len() - i,
        {
            if str_eq(self.entries[i].0.as_str(), key) {
                return Some(i);
            }
            i = i + 1;
        }
        None
    }

    pub fn contains_key(&self, key: &str) -> (b: bool)
        ensures
            b == self@.contains_key(key@),
    {
        proof {
            use_type_invariant(self);
            self.lemma_wf();
        }
        self.position(key).is_some()
    }

    pub fn get(&self, key: &str) -> (r: Option<&V>)
        ensures
            match r {
                Some(v) => self@.contains_key(key@) && *v == self@[key@],
                None => !self@.contains_key(key@),
            },
    {
        proof {
            use_type_invariant(self);
            self.lemma_wf();
        }
        match self.position(key) {
            Some(i) => Some(&self.entries[i].1),
            None => None,
        }
    }

    pub fn key_at(&self, i: usize) -> (k: &String)
        requires
            i < self.entry_seq().len(),
        ensures
            k@ == self.entry_seq()[i as int].0,
    {
        &self.entries[i].0
    }

    pub fn value_at(&self, i: usize) -> (v: &V)
        requires
            i < self.entry_seq().len(),
        ensures
            *v == self.entry_seq()[i as int].1,
    {
        &self.entries[i].1
    }

    /// Replaces the value of the entry at `i`, keeping its key.
    pub fn set_value_at(&mut self, i: usize, value: V)
        requires
            i < old(self).entry_seq().len(),
        ensures
            final(self).entry_seq() == old(self).entry_seq().update(
                i as int,
                (old(self).entry_seq()[i as int].0, value),
            ),
            final(self)@ == old(self)@.insert(old(self).entry_seq()[i as int].0, value),
    {
        proof {
            use_type_invariant(&*self);
            self.lemma_wf();
        }
        let ghost before = self.entry_seq();
        let mut entries: Vec<(String, V)> = Vec::new();
        std::mem::swap(&mut entries, &mut self.entries);
        let (key, _old) = entries.remove(i);
        entries.insert(i, (key, value));
        let ghost after = entries@.map_values(|e: (String, V)| (e.0@, e.1));
        assert(after =~= before.update(i as int, (before[i as int].0, value)));
        assert(keys_of(after) =~= keys_of(before));
        self.entries = entries;
        proof {
            use_type_invariant(&*self);
            self.lemma_wf();
            let k0 = before[i as int].0;
            assert forall|k: Seq<char>| self@.contains_key(k) <==> old(self)@.insert(k0, value).contains_key(k) by {
                if self@.contains_key(k) {
                    let j = choose|j: int| 0 <= j < after.len() && after[j].0 == k;
                    assert(before[j].0 == k);
                }
                if old(self)@.contains_key(k) {
                    let j = choose|j: int| 0 <= j < before.len() && before[j].0 == k;
                    assert(after[j].0 == k);
                }
                if k == k0 {
                    assert(after[i as int].0 == k);
                }
            }
            assert forall|k: Seq<char>| #[trigger] self@.contains_key(k) implies self@[k] == old(self)@.insert(k0, value)[k] by {
                let j = choose|j: int| 0 <= j < after.len() && after[j].0 == k;
                assert(before[j].0 == k);
            }
            assert(self@ =~= old(self)@.insert(k0, value));
        }
    }

    /// Inserts or replaces the value for `key`, returning the value it had.
    pub fn insert(&mut self, key: String, value: V) -> (prior: Option<V>)
        ensures
            final(self)@ == old(self)@.insert(key@, value),
            match prior {
                Some(v) => old(self)@.contains_key(key@) && v == old(self)@[key@],
                None => !old(self)@.contains_key(key@),
            },
    {
        proof {
            use_type_invariant(&*self);
            self.lemma_wf();
        }
        let ghost before = self.entry_seq();
        let key_chars = chars_of(key.as_str());
        let mut i: usize = 0;
        let n = self.entries.len();
        loop
            invariant
                n == self.entries.len(),
                i <= n,
                self.entry_seq() == before,
                before.len() == n,
                sorted_keys(keys_of(before)),
                key_chars@ == key@,
                forall|j: int| 0 <= j < i ==> lex_lt(#[trigger] before[j].0, key@),
            ensures
                i <= n,
                forall|j: int| 0 <= j < i ==> lex_lt(#[trigger] before[j].0, key@),
                i < n ==> (before[i as int].0 == key@ || lex_lt(key@, before[i as int].0)),
            decreases n - i,
        {
            if i == n {
                break;
            }
            let current = chars_of(self.entries[i].0.as_str());
            let c = compare_chars(&current, &key_chars);
            assert(before[i as int].0 == self.entries@[i as int].0@);
            if c >= 0 {
                break;
            }
            i = i + 1;
        }
        let ghost orig = self.entries@;
        assert(orig.map_values(|e: (String, V)| (e.0@, e.1)) == before);
        let mut entries: Vec<(String, V)> = Vec::new();
        std::mem::swap(&mut entries, &mut self.entries);
        assert(entries@ == orig);
        if i < n && str_eq(entries[i].0.as_str(), key.as_str()) {
            let (_old_key, old_value) = entries.remove(i);
            entries.insert(i, (key, value));
            let ghost after = entries@.map_values(|e: (String, V)| (e.0@, e.1));
            proof {
                assert(before[i as int] == (orig[i as int].0@, orig[i as int].1));
                assert(before[i as int].0 == key@);
                assert(after =~= before.update(i as int, (key@, value)));
                assert(keys_of(after) =~= keys_of(before));
                assert(entries_map(before).contains_key(key@));
                assert(old_value == before[i as int].1);
                assert(distinct_keys(after)) by {
                    assert forall|a: int, b: int|
                        0 <= a < after.len() && 0 <= b < after.len() && a != b implies #[trigger] after[a].0
                        != #[trigger] after[b].0 by {
                        assert(keys_of(after)[a] == after[a].0);
                        assert(keys_of(after)[b] == after[b].0);
                        if a < b {
                            lemma_lex_irreflexive(after[a].0);
                        } else {
                            lemma_lex_irreflexive(after[b].0);
                        }
                    }
                }
                lemma_entries_map(after);
                assert(entries_map(after) =~= entries_map(before).insert(key@, value)) by {
                    assert forall|k: Seq<char>| #[trigger]
                        entries_map(after).contains_key(k) <==> entries_map(before).insert(key@, value).contains_key(k) by {
                        assert(after[i as int].0 == key@);
                        if entries_map(after).contains_key(k) {
                            let j = choose|j: int| 0 <= j < after.len() && after[j].0 == k;
                            if j != i {
                                assert(before[j] == after[j]);
                                assert(entries_map(before).contains_key(before[j].0));
                            }
                        }
                        if entries_map(before).insert(key@, value).contains_key(k) {
                            if k == key@ {
                                assert(entries_map(after).contains_key(after[i as int].0));
                            } else {
                                let j = choose|j: int| 0 <= j < before.len() && before[j].0 == k;
                                assert(j != i);
                                assert(before[j] == after[j]);
                                assert(entries_map(after).contains_key(after[j].0));
                            }
                        }
                    }
                    assert forall|k: Seq<char>| #[trigger] entries_map(after).contains_key(k)
                        implies entries_map(after)[k] == entries_map(before).insert(key@, value)[k] by {
                        let j = choose|j: int| 0 <= j < after.len() && after[j].0 == k;
                        if j != i {
                            assert(before[j] == after[j]);
                        } else {
                            assert(after[j] == (key@, value));
                        }
                    }
                }
            }
            self.entries = entries;
            Some(old_value)
        } else {
            entries.insert(i, (key, value));
            let ghost after = entries@.map_values(|e: (String, V)| (e.0@, e.1));
            proof {
                assert(after =~= before.insert(i as int, (key@, value)));
                if i < n {
                    let cur = before[i as int].0;
                    assert(cur == orig[i as int].0@);
                    assert(cur != key@);
                    assert(lex_lt(key@, cur));
                }
                assert(sorted_keys(keys_of(after))) by {
                    assert forall|a: int, b: int|
                        0 <= a < b < keys_of(after).len() implies lex_lt(
                        #[trigger] keys_of(after)[a],
                        #[trigger] keys_of(after)[b],
                    ) by {
                        assert(keys_of(after)[a] == after[a].0);
                        assert(keys_of(after)[b] == after[b].0);
                        if b < i {
                            assert(keys_of(before)[a] == before[a].0);
                            assert(keys_of(before)[b] == before[b].0);
                        } else if b == i {
                            assert(after[a] == before[a]);
                        } else if a == i {
                            assert(after[b] == before[b - 1]);
                            if b - 1 > i {
                                assert(keys_of(before)[i as int] == before[i as int].0);
                                assert(keys_of(before)[b - 1] == before[b - 1].0);
                                lemma_lex_transitive(key@, before[i as int].0, before[b - 1].0);
                            }
                        } else if a < i {
                            assert(after[a] == before[a]);
                            assert(after[b] == before[b - 1]);
                            assert(keys_of(before)[a] == before[a].0);
                            assert(keys_of(before)[b - 1] == before[b - 1].0);
                        } else {
                            assert(after[a] == before[a - 1]);
                            assert(after[b] == before[b - 1]);
                            assert(keys_of(before)[a - 1] == before[a - 1].0);
                            assert(keys_of(before)[b - 1] == before[b - 1].0);
                        }
                    }
                }
                assert forall|j: int| 0 <= j < before.len() implies before[j].0 != key@ by {
                    if j < i {
                        lemma_lex_irreflexive(key@);
                    } else {
                        assert(keys_of(before)[i as int] == before[i as int].0);
                        assert(keys_of(before)[j] == before[j].0);
                        if j > i {
                            lemma_lex_transitive(key@, before[i as int].0, before[j].0);
                        }
                        lemma_lex_irreflexive(key@);
                    }
                }
                assert(!entries_map(before).contains_key(key@));
                assert(distinct_keys(after)) by {
                    assert forall|a: int, b: int|
                        0 <= a < after.len() && 0 <= b < after.len() && a != b implies #[trigger] after[a].0
                        != #[trigger] after[b].0 by {
                        assert(keys_of(after)[a] == after[a].0);
                        assert(keys_of(after)[b] == after[b].0);
                        if a < b {
                            lemma_lex_irreflexive(after[a].0);
                        } else {
                            lemma_lex_irreflexive(after[b].0);
                        }
                    }
                }
                lemma_entries_map(after);
                assert(entries_map(after) =~= entries_map(before).insert(key@, value)) by {
                    assert forall|k: Seq<char>| #[trigger]
                        entries_map(after).contains_key(k) <==> entries_map(before).insert(key@, value).contains_key(k) by {
                        assert(after[i as int].0 == key@);
                        if entries_map(after).contains_key(k) {
                            let j = choose|j: int| 0 <= j < after.len() && after[j].0 == k;
                            if j < i {
                                assert(before[j] == after[j]);
                                assert(entries_map(before).contains_key(before[j].0));
                            } else if j > i {
                                assert(before[j - 1] == after[j]);
                                assert(entries_map(before).contains_key(before[j - 1].0));
                            }
                        }
                        if entries_map(before).insert(key@, value).contains_key(k) {
                            if k == key@ {
                                assert(entries_map(after).contains_key(after[i as int].0));
                            } else {
                                let j = choose|j: int| 0 <= j < before.len() && before[j].0 == k;
                                if j < i {
                                    assert(before[j] == after[j]);
                                    assert(entries_map(after).contains_key(after[j].0));
                                } else {
                                    assert(before[j] == after[j + 1]);
                                    assert(entries_map(after).contains_key(after[j + 1].0));
                                }
                            }
                        }
                    }
                    assert forall|k: Seq<char>| #[trigger] entries_map(after).contains_key(k)
                        implies entries_map(after)[k] == entries_map(before).insert(key@, value)[k] by {
                        let j = choose|j: int| 0 <= j < after.len() && after[j].0 == k;
                        if j < i {
                            assert(before[j] == after[j]);
                        } else if j > i {
                            assert(before[j - 1] == after[j]);
                        }
                    }
                }
            }
            self.entries = entries;
            None
        }
    }
}

impl<V> StrMap<V> {
    /// The keys, in order.
    pub fn keys(&self) -> (r: Vec<String>)
        ensures
            r@.map_values(|k: String| k@) == self.key_seq(),
    {
        let mut r: Vec<String> = Vec::new();
        let mut i: usize = 0;
        while i < self.entries.len()
            invariant
                i <= self.entries.len(),
                r@.map_values(|k: String| k@) == self.key_seq().take(i as int),
                self.key_seq().len() == self.entries@.len(),
            decreases self.entries.len() - i,
        {
            assert(self.key_seq()[i as int] == self.entries@[i as int].0@);
            let ghost before = r@.map_values(|k: String| k@);
            r.push(self.entries[i].0.clone());
            assert(r@.map_values(|k: String| k@) =~= before.push(self.key_seq()[i as int]));
            assert(self.key_seq().take(i + 1) =~= self.key_seq().take(i as int).push(self.key_seq()[i as int]));
            i = i + 1;
        }
        assert(self.key_seq().take(self.entries.len() as int) =~= self.key_seq());
        r
    }
}

impl<V: Copy> StrMap<V> {
    /// A copy of the map with the same entries in the same order.
    pub fn clone_map(&self) -> (r: Self)
        ensures
            r.entry_seq() == self.entry_seq(),
            r@ == self@,
    {
        proof {
            use_type_invariant(self);
        }
        let mut entries: Vec<(String, V)> = Vec::new();
        let mut i: usize = 0;
        while i < self.entries.len()
            invariant
                i <= self.entries.len(),
                entries@.len() == i,
                forall|j: int| 0 <= j < i ==> #[trigger] entries@[j].0@ == self.entries@[j].0@
                    && entries@[j].1 == self.entries@[j].1,
            decreases self.entries.len() - i,
        {
            let k = self.entries[i].0.clone();
            let v = self.entries[i].1;
            entries.push((k, v));
            i = i + 1;
        }
        let ghost es = entries@.map_values(|e: (String, V)| (e.0@, e.1));
        assert(es =~= self.entry_seq());
        assert(keys_of(es) =~= keys_of(self.entry_seq()));
        let r = StrMap { entries };
        assert(r.entry_seq() =~= self.entry_seq());
        r
    }

    /// The value stored for `key`, copied out.
    pub fn get_copied(&self, key: &str) -> (r: Option<V>)
        ensures
            match r {
                Some(v) => self@.contains_key(key@) && v == self@[key@],
                None => !self@.contains_key(key@),
            },
    {
        match self.get(key) {
            Some(v) => Some(*v),
            None => None,
        }
    }
}

/// The entries of a map of maps, inner maps taken by their entries.
pub open spec fn nested_entries(m: &StrMap<StrMap<i64>>) -> Seq<(Seq<char>, Seq<(Seq<char>, i64)>)> {
    m.entry_seq().map_values(|e: (Seq<char>, StrMap<i64>)| (e.0, e.1.entry_seq()))
}

/// A copy of a map of maps, entry by entry.
pub fn clone_nested(m: &StrMap<StrMap<i64>>) -> (r: StrMap<StrMap<i64>>)
    ensures
        nested_entries(&r) == nested_entries(m),
        r@.dom() == m@.dom(),
{
    proof {
        use_type_invariant(m);
    }
    let mut entries: Vec<(String, StrMap<i64>)> = Vec::new();
    let mut i: usize = 0;
    while i < m.entries.len()
        invariant
            i <= m.entries.len(),
            entries@.len() == i,
            forall|j: int| 0 <= j < i ==> #[trigger] entries@[j].0@ == m.entries@[j].0@
                && entries@[j].1.entry_seq() == m.entries@[j].1.entry_seq(),
        decreases m.entries.len() - i,
    {
        let k = m.entries[i].0.clone();
        let v = m.entries[i].1.clone_map();
        entries.push((k, v));
        i = i + 1;
    }
    let ghost es = entries@.map_values(|e: (String, StrMap<i64>)| (e.0@, e.1));
    assert(keys_of(es) =~= keys_of(m.entry_seq()));
    let r = StrMap { entries };
    assert(keys_of(r.entry_seq()) =~= keys_of(m.entry_seq()));
    assert(nested_entries(&r) =~= nested_entries(m));
    proof {
        r.lemma_wf();
        m.lemma_wf();
        assert forall|k: Seq<char>| r@.contains_key(k) <==> m@.contains_key(k) by {
            if r@.contains_key(k) {
                let j = choose|j: int| 0 <= j < r.entry_seq().len() && r.entry_seq()[j].0 == k;
                assert(m.entry_seq()[j].0 == k);
            }
            if m@.contains_key(k) {
                let j = choose|j: int| 0 <= j < m.entry_seq().len() && m.entry_seq()[j].0 == k;
                assert(r.entry_seq()[j].0 == k);
            }
        }
        assert(r@.dom() =~= m@.dom());
    }
    r
}


/// The values of a map of values, each taken by its view.
pub open spec fn value_views(m: Map<Seq<char>, Value>) -> Map<Seq<char>, ValueView> {
    m.map_values(|v: Value| v@)
}

/// A map of maps of values, every value taken by its view.
pub open spec fn nested_value_views(m: Map<Seq<char>, StrMap<Value>>) -> Map<
    Seq<char>,
    Map<Seq<char>, ValueView>,
> {
    m.map_values(|p: StrMap<Value>| value_views(p@))
}

/// A copy of a map of values: the same keys in the same order, each value
/// with the same view.
pub fn clone_values(m: &StrMap<Value>) -> (r: StrMap<Value>)
    ensures
        keys_of(r.entry_seq()) == keys_of(m.entry_seq()),
        r.entry_seq().len() == m.entry_seq().len(),
        forall|j: int| 0 <= j < m.entry_seq().len() ==> #[trigger] r.entry_seq()[j].1@ == m.entry_seq()[j].1@,
        value_views(r@) == value_views(m@),
{
    proof {
        use_type_invariant(m);
    }
    let mut entries: Vec<(String, Value)> = Vec::new();
    let mut i: usize = 0;
    while i < m.entries.len()
        invariant
            i <= m.entries.len(),
            entries@.len() == i,
            forall|j: int| 0 <= j < i ==> #[trigger] entries@[j].0@ == m.entries@[j].0@
                && entries@[j].1@ == m.entries@[j].1@,
        decreases m.entries.len() - i,
    {
        let k = m.entries[i].0.clone();
        let v = m.entries[i].1.deep_clone();
        entries.push((k, v));
        i = i + 1;
    }
    let ghost es = entries@.map_values(|e: (String, Value)| (e.0@, e.1));
    assert(keys_of(es) =~= keys_of(m.entry_seq()));
    let r = StrMap { entries };
    assert(keys_of(r.entry_seq()) =~= keys_of(m.entry_seq()));
    proof {
        r.lemma_wf();
        m.lemma_wf();
        assert forall|k: Seq<char>| r@.contains_key(k) <==> m@.contains_key(k) by {
            if r@.contains_key(k) {
                let j = choose|j: int| 0 <= j < r.entry_seq().len() && r.entry_seq()[j].0 == k;
                assert(m.entry_seq()[j].0 == k);
            }
            if m@.contains_key(k) {
                let j = choose|j: int| 0 <= j < m.entry_seq().len() && m.entry_seq()[j].0 == k;
                assert(r.entry_seq()[j].0 == k);
            }
        }
        assert forall|k: Seq<char>| #[trigger] r@.contains_key(k) implies r@[k]@ == m@[k]@ by {
            let j = choose|j: int| 0 <= j < r.entry_seq().len() && r.entry_seq()[j].0 == k;
            assert(m.entry_seq()[j].0 == k);
        }
        assert(value_views(r@) =~= value_views(m@));
    }
    r
}

/// A copy of a map of maps of values, compared by views.
pub fn clone_nested_values(m: &StrMap<StrMap<Value>>) -> (r: StrMap<StrMap<Value>>)
    ensures
        nested_value_views(r@) == nested_value_views(m@),
{
    proof {
        use_type_invariant(m);
    }
    let mut entries: Vec<(String, StrMap<Value>)> = Vec::new();
    let mut i: usize = 0;
    while i < m.entries.len()
        invariant
            i <= m.entries.len(),
            entries@.len() == i,
            forall|j: int| 0 <= j < i ==> #[trigger] entries@[j].0@ == m.entries@[j].0@
                && value_views(entries@[j].1@) == value_views(m.entries@[j].1@),
        decreases m.entries.len() - i,
    {
        let k = m.entries[i].0.clone();
        let v = clone_values(&m.entries[i].1);
        entries.push((k, v));
        i = i + 1;
    }
    let ghost es = entries@.map_values(|e: (String, StrMap<Value>)| (e.0@, e.1));
    assert(keys_of(es) =~= keys_of(m.entry_seq()));
    let r = StrMap { entries };
    assert(keys_of(r.entry_seq()) =~= keys_of(m.entry_seq()));
    proof {
        r.lemma_wf();
        m.lemma_wf();
        assert forall|k: Seq<char>| r@.contains_key(k) <==> m@.contains_key(k) by {
            if r@.contains_key(k) {
                let j = choose|j: int| 0 <= j < r.entry_seq().len() && r.entry_seq()[j].0 == k;
                assert(m.entry_seq()[j].0 == k);
            }
            if m@.contains_key(k) {
                let j = choose|j: int| 0 <= j < m.entry_seq().len() && m.entry_seq()[j].0 == k;
                assert(r.entry_seq()[j].0 == k);
            }
        }
        assert forall|k: Seq<char>| #[trigger] r@.contains_key(k) implies value_views(r@[k]@) == value_views(m@[k]@) by {
            let j = choose|j: int| 0 <= j < r.entry_seq().len() && r.entry_seq()[j].0 == k;
            assert(m.entry_seq()[j].0 == k);
        }
        assert(nested_value_views(r@) =~= nested_value_views(m@));
    }
    r
}

/// Whether two maps of values hold the same keys, each with equal values.
#[verifier::loop_isolation(false)]
pub fn value_maps_equal(a: &StrMap<Value>, b: &StrMap<Value>) -> (r: bool)
    ensures
        r == (value_views(a@) == value_views(b@)),
{
    proof {
        use_type_invariant(a);
        use_type_invariant(b);
        a.lemma_wf();
        b.lemma_wf();
        assert(value_views(a@).dom() =~= a@.dom());
        assert(value_views(b@).dom() =~= b@.dom());
    }
    if a.entries.len() != b.entries.len() {
        return false;
    }
    let mut i: usize = 0;
    while i < a.entries.len()
        invariant
            i <= a.entries.len(),
            forall|j: int|
                0 <= j < i ==> b@.contains_key(#[trigger] a.entry_seq()[j].0) && b@[a.entry_seq()[j].0]@
                    == a.entry_seq()[j].1@,
        decreases a.entries.len() - i,
    {
        let ghost k = a.entry_seq()[i as int].0;
        assert(a@.contains_key(k));
        match b.get(a.entries[i].0.as_str()) {
            None => {
                assert(!value_views(b@).contains_key(k));
                return false;
            },
            Some(v) => {
                if !a.entries[i].1.equals(v) {
                    assert(value_views(a@)[k] != value_views(b@)[k]);
                    return false;
                }
            },
        }
        i = i + 1;
    }
    proof {
        assert forall|k: Seq<char>| a@.contains_key(k) implies b@.contains_key(k) && b@[k]@ == a@[k]@ by {
            let j = choose|j: int| 0 <= j < a.entry_seq().len() && a.entry_seq()[j].0 == k;
            assert(b@.contains_key(a.entry_seq()[j].0));
        }
        vstd::set_lib::lemma_subset_equality(a@.dom(), b@.dom());
        assert(value_views(a@) =~= value_views(b@));
    }
    true
}

/// The entries of `m` with `p` in front of every key.
pub open spec fn with_prefix(m: Map<Seq<char>, Map<Seq<char>, ValueView>>, p: Seq<char>) -> Map<
    Seq<char>,
    Map<Seq<char>, ValueView>,
> {
    Map::new(
        |k: Seq<char>| p.len() <= k.len() && k.subrange(0, p.len() as int) == p && m.contains_key(
            k.subrange(p.len() as int, k.len() as int),
        ),
        |k: Seq<char>| m[k.subrange(p.len() as int, k.len() as int)],
    )
}

/// Copies every entry of `overlay` into `target`, each key with `prefix` in
/// front of it; an entry replaces one with the same key.
#[verifier::loop_isolation(false)]
pub fn overlay_values(target: &mut StrMap<StrMap<Value>>, prefix: &str, overlay: &StrMap<StrMap<Value>>)
    ensures
        nested_value_views(final(target)@) == nested_value_views(old(target)@).union_prefer_right(
            with_prefix(nested_value_views(overlay@), prefix@),
        ),
{
    proof {
        use_type_invariant(overlay);
        overlay.lemma_wf();
    }
    let ghost base = nested_value_views(target@);
    let ghost es = overlay.entry_seq();
    let ghost p = prefix@;
    let mut i: usize = 0;
    while i < overlay.entries.len()
        invariant
            i <= overlay.entries.len(),
            es == overlay.entry_seq(),
            forall|k: Seq<char>|
                #[trigger] nested_value_views(target@).contains_key(k) <==> (base.contains_key(k) || exists|j: int|
                    0 <= j < i && k == p + (#[trigger] es[j]).0),
            forall|j: int| 0 <= j < i ==> nested_value_views(target@)[p + (#[trigger] es[j]).0] == value_views(es[j].1@),
            forall|k: Seq<char>|
                #[trigger] nested_value_views(target@).contains_key(k) && !(exists|j: int|
                    0 <= j < i && k == p + (#[trigger] es[j]).0) ==> nested_value_views(target@)[k] == base[k],
        decreases overlay.entries.len() - i,
    {
        let mut key = String::new();
        crate::text::push_str(&mut key, prefix);
        crate::text::push_str(&mut key, overlay.entries[i].0.as_str());
        let value = clone_values(&overlay.entries[i].1);
        let ghost ki = p + es[i as int].0;
        assert(key@ =~= ki);
        assert(es[i as int].1 == overlay.entries@[i as int].1);
        assert forall|j: int| 0 <= j < i implies (p + (#[trigger] es[j]).0) != ki by {
            if p + es[j].0 == ki {
                assert((p + es[j].0).subrange(p.len() as int, (p + es[j].0).len() as int) =~= es[j].0);
                assert(ki.subrange(p.len() as int, ki.len() as int) =~= es[i as int].0);
            }
        }
        let ghost before = nested_value_views(target@);
        let ghost vv = value_views(value@);
        assert(vv == value_views(es[i as int].1@));
        target.insert(key, value);
        assert(nested_value_views(target@) =~= before.insert(ki, vv));
        assert forall|k: Seq<char>|
            #[trigger] nested_value_views(target@).contains_key(k) <==> (base.contains_key(k) || exists|j: int|
                0 <= j < i + 1 && k == p + (#[trigger] es[j]).0) by {
            if k == ki {
                assert(k == p + es[i as int].0);
            }
            if exists|j: int| 0 <= j < i + 1 && k == p + (#[trigger] es[j]).0 {
                let j = choose|j: int| 0 <= j < i + 1 && k == p + (#[trigger] es[j]).0;
                if j < i {
                    assert(before.contains_key(k));
                }
            }
        }
        i = i + 1;
    }
    proof {
        let after = nested_value_views(target@);
        let want = base.union_prefer_right(with_prefix(nested_value_views(overlay@), p));
        let ov = nested_value_views(overlay@);
        assert forall|k: Seq<char>| with_prefix(ov, p).contains_key(k) <==> exists|j: int|
            0 <= j < es.len() && k == p + (#[trigger] es[j]).0 by {
            if with_prefix(ov, p).contains_key(k) {
                let rest = k.subrange(p.len() as int, k.len() as int);
                assert(overlay@.contains_key(rest));
                let j = choose|j: int| 0 <= j < es.len() && es[j].0 == rest;
                assert(k =~= p + es[j].0);
            }
            if exists|j: int| 0 <= j < es.len() && k == p + (#[trigger] es[j]).0 {
                let j = choose|j: int| 0 <= j < es.len() && k == p + (#[trigger] es[j]).0;
                assert(k.subrange(0, p.len() as int) =~= p);
                assert(k.subrange(p.len() as int, k.len() as int) =~= es[j].0);
            }
        }
        assert forall|k: Seq<char>| #[trigger] after.contains_key(k) implies after[k] == want[k] by {
            if exists|j: int| 0 <= j < es.len() && k == p + (#[trigger] es[j]).0 {
                let j = choose|j: int| 0 <= j < es.len() && k == p + (#[trigger] es[j]).0;
                assert(k.subrange(p.len() as int, k.len() as int) =~= es[j].0);
                assert(with_prefix(ov, p).contains_key(k));
            }
        }
        assert(after =~= want);
    }
}

/// The keys of either map, in ascending order, each once.
#[verifier::loop_isolation(false)]
pub fn key_union<A, B>(a: &StrMap<A>, b: &StrMap<B>) -> (r: Vec<String>)
    ensures
        sorted_keys(crate::text::string_texts(r@)),
        forall|k: Seq<char>|
            #[trigger] crate::text::string_texts(r@).contains(k) <==> (a@.contains_key(k) || b@.contains_key(k)),
{
    proof {
        use_type_invariant(a);
        use_type_invariant(b);
        a.lemma_wf();
        b.lemma_wf();
    }
    let mut all: StrMap<bool> = StrMap::new();
    let mut i: usize = 0;
    while i < a.entries.len()
        invariant
            i <= a.entries.len(),
            forall|k: Seq<char>|
                #[trigger] all@.contains_key(k) <==> exists|j: int| 0 <= j < i && a.entry_seq()[j].0 == k,
        decreases a.entries.len() - i,
    {
        assert(a.entry_seq()[i as int].0 == a.entries@[i as int].0@);
        all.insert(a.entries[i].0.clone(), true);
        i = i + 1;
    }
    let mut i: usize = 0;
    while i < b.entries.len()
        invariant
            i <= b.entries.len(),
            forall|k: Seq<char>|
                #[trigger] all@.contains_key(k) <==> (a@.contains_key(k) || exists|j: int|
                    0 <= j < i && b.entry_seq()[j].0 == k),
        decreases b.entries.len() - i,
    {
        assert(b.entry_seq()[i as int].0 == b.entries@[i as int].0@);
        all.insert(b.entries[i].0.clone(), true);
        i = i + 1;
    }
    let r = all.keys();
    proof {
        use_type_invariant(&all);
        all.lemma_wf();
        let ks = crate::text::string_texts(r@);
        assert(ks =~= all.key_seq());
        assert forall|k: Seq<char>| #[trigger] ks.contains(k) <==> (a@.contains_key(k) || b@.contains_key(k)) by {
            if ks.contains(k) {
                let j = choose|j: int| 0 <= j < ks.len() && ks[j] == k;
                assert(all.key_seq()[j] == all.entry_seq()[j].0);
                assert(all@.contains_key(k));
            }
            if a@.contains_key(k) || b@.contains_key(k) {
                assert(all@.contains_key(k));
                let j = choose|j: int| 0 <= j < all.entry_seq().len() && all.entry_seq()[j].0 == k;
                assert(ks[j] == k);
            }
        }
    }
    r
}

} // verus!

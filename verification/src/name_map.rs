//! Maps and sets keyed by name, held in ascending order of their keys.

use vstd::prelude::*;
use crate::text::{lemma_lex_irreflexive, lemma_lex_total, lemma_lex_transitive, lex_lt, str_eq, str_lt, texts};

verus! {

/// Whether the keys of `entries` ascend strictly.
pub open spec fn ascending<V>(entries: Seq<(Seq<char>, V)>) -> bool {
    forall|i: int, j: int| 0 <= i < j < entries.len() ==> lex_lt(#[trigger] entries[i].0, #[trigger] entries[j].0)
}

/// Whether some entry of `entries` has the key `key`.
pub open spec fn has_key<V>(entries: Seq<(Seq<char>, V)>, key: Seq<char>) -> bool {
    exists|i: int| 0 <= i < entries.len() && #[trigger] entries[i].0 == key
}

/// The position of an entry with the key `key`.
pub open spec fn index_of_key<V>(entries: Seq<(Seq<char>, V)>, key: Seq<char>) -> int {
    choose|i: int| 0 <= i < entries.len() && #[trigger] entries[i].0 == key
}

/// The map that a sequence of entries stands for.
pub open spec fn entries_map<V>(entries: Seq<(Seq<char>, V)>) -> Map<Seq<char>, V> {
    Map::new(|k: Seq<char>| has_key(entries, k), |k: Seq<char>| entries[index_of_key(entries, k)].1)
}

/// In a strictly ascending sequence no key occurs twice.
pub proof fn lemma_ascending_distinct<V>(entries: Seq<(Seq<char>, V)>, i: int, j: int)
    requires
        ascending(entries),
        0 <= i < entries.len(),
        0 <= j < entries.len(),
        entries[i].0 == entries[j].0,
    ensures
        i == j,
{
    lemma_lex_irreflexive(entries[i].0);
}

/// The map of an ascending sequence holds each entry under its key.
pub proof fn lemma_entry_in_map<V>(entries: Seq<(Seq<char>, V)>, i: int)
    requires
        ascending(entries),
        0 <= i < entries.len(),
    ensures
        entries_map(entries).contains_key(entries[i].0),
        entries_map(entries)[entries[i].0] == entries[i].1,
{
    let k = entries[i].0;
    assert(has_key(entries, k));
    lemma_ascending_distinct(entries, i, index_of_key(entries, k));
}

/// The map of an ascending sequence is finite and has one key per entry.
pub proof fn lemma_entries_map_len<V>(entries: Seq<(Seq<char>, V)>)
    requires
        ascending(entries),
    ensures
        entries_map(entries).dom().finite(),
        entries_map(entries).dom().len() == entries.len(),
    decreases entries.len(),
{
    if entries.len() == 0 {
        assert(entries_map(entries).dom() =~= Set::<Seq<char>>::empty());
    } else {
        let rest = entries.drop_last();
        let last = entries.last();
        assert forall|i: int, j: int| 0 <= i < j < rest.len() implies lex_lt(
            #[trigger] rest[i].0,
            #[trigger] rest[j].0,
        ) by {
            assert(rest[i] == entries[i] && rest[j] == entries[j]);
        }
        lemma_entries_map_len(rest);
        assert(!has_key(rest, last.0)) by {
            if has_key(rest, last.0) {
                let i = index_of_key(rest, last.0);
                assert(rest[i] == entries[i]);
                lemma_ascending_distinct(entries, i, entries.len() - 1);
            }
        }
        assert(entries_map(entries).dom() =~= entries_map(rest).dom().insert(last.0)) by {
            assert forall|k: Seq<char>| has_key(entries, k) <==> (has_key(rest, k) || k == last.0) by {
                if has_key(entries, k) {
                    let i = index_of_key(entries, k);
                    if i < rest.len() {
                        assert(rest[i] == entries[i]);
                    }
                }
                if has_key(rest, k) {
                    let i = index_of_key(rest, k);
                    assert(rest[i] == entries[i]);
                }
                if k == last.0 {
                    assert(entries[entries.len() - 1].0 == k);
                }
            }
        }
    }
}

/// Two ascending sequences that stand for the same map are the same sequence.
pub proof fn lemma_ascending_unique<V>(a: Seq<(Seq<char>, V)>, b: Seq<(Seq<char>, V)>)
    requires
        ascending(a),
        ascending(b),
        entries_map(a) == entries_map(b),
    ensures
        a == b,
    decreases a.len(),
{
    lemma_entries_map_len(a);
    lemma_entries_map_len(b);
    assert(a.len() == b.len());
    if a.len() > 0 {
        let n = a.len() - 1;
        // the last key of each sequence is the greatest key of the map
        lemma_entry_in_map(a, n);
        lemma_entry_in_map(b, n);
        assert(has_key(b, a[n].0));
        assert(has_key(a, b[n].0));
        let ib = index_of_key(b, a[n].0);
        let ia = index_of_key(a, b[n].0);
        if ib < n {
            // a[n] == b[ib] < b[n] == a[ia], so n < ia: impossible
            if ia < n {
                lemma_lex_transitive(a[ia].0, a[n].0, b[n].0);
                lemma_lex_irreflexive(a[ia].0);
            }
            lemma_lex_irreflexive(a[n].0);
        }
        assert(a[n].0 == b[n].0);
        assert(a[n].1 == b[n].1);
        let ra = a.drop_last();
        let rb = b.drop_last();
        assert forall|i: int, j: int| 0 <= i < j < ra.len() implies lex_lt(
            #[trigger] ra[i].0,
            #[trigger] ra[j].0,
        ) by {
            assert(ra[i] == a[i] && ra[j] == a[j]);
        }
        assert forall|i: int, j: int| 0 <= i < j < rb.len() implies lex_lt(
            #[trigger] rb[i].0,
            #[trigger] rb[j].0,
        ) by {
            assert(rb[i] == b[i] && rb[j] == b[j]);
        }
        assert(entries_map(ra) =~= entries_map(rb)) by {
            assert forall|k: Seq<char>| has_key(ra, k) implies has_key(rb, k) && entries_map(ra)[k]
                == entries_map(rb)[k] by {
                let i = index_of_key(ra, k);
                assert(ra[i] == a[i]);
                lemma_entry_in_map(a, i);
                lemma_entry_in_map(ra, i);
                assert(has_key(b, k));
                let j = index_of_key(b, k);
                lemma_entry_in_map(b, j);
                if j == n {
                    lemma_ascending_distinct(a, i, n);
                }
                assert(rb[j] == b[j]);
                lemma_entry_in_map(rb, j);
            }
            assert forall|k: Seq<char>| has_key(rb, k) implies has_key(ra, k) by {
                let i = index_of_key(rb, k);
                assert(rb[i] == b[i]);
                lemma_entry_in_map(b, i);
                assert(has_key(a, k));
                let j = index_of_key(a, k);
                if j == n {
                    lemma_ascending_distinct(b, i, n);
                }
                assert(ra[j] == a[j]);
            }
        }
        lemma_ascending_unique(ra, rb);
        assert(a =~= ra.push(a[n]));
        assert(b =~= rb.push(b[n]));
    } else {
        assert(a =~= b);
    }
}

/// The entries that a vector of named values holds.
pub open spec fn entries_of<V>(held: Seq<(String, V)>) -> Seq<(Seq<char>, V)> {
    Seq::new(held.len(), |i: int| (held[i].0@, held[i].1))
}

/// The first position whose name does not sort before `key`.
fn lower_bound<V>(held: &Vec<(String, V)>, key: &str) -> (i: usize)
    requires
        ascending(entries_of(held@)),
    ensures
        i <= held@.len(),
        forall|j: int| 0 <= j < i ==> lex_lt(#[trigger] entries_of(held@)[j].0, key@),
        forall|j: int| i <= j < held@.len() ==> !lex_lt(#[trigger] entries_of(held@)[j].0, key@),
{
    let mut lo: usize = 0;
    let mut hi: usize = held.len();
    let ghost es = entries_of(held@);
    while lo < hi
        invariant
            lo <= hi <= held@.len(),
            es == entries_of(held@),
            ascending(es),
            forall|j: int| 0 <= j < lo ==> lex_lt(#[trigger] es[j].0, key@),
            forall|j: int| hi <= j < es.len() ==> !lex_lt(#[trigger] es[j].0, key@),
        decreases hi - lo,
    {
        let mid = lo + (hi - lo) / 2;
        assert(es[mid as int].0 == held@[mid as int].0@);
        if str_lt(held[mid].0.as_str(), key) {
            assert forall|j: int| 0 <= j < mid + 1 implies lex_lt(#[trigger] es[j].0, key@) by {
                if j < mid {
                    lemma_lex_transitive(es[j].0, es[mid as int].0, key@);
                }
            }
            lo = mid + 1;
        } else {
            assert forall|j: int| mid <= j < es.len() implies !lex_lt(#[trigger] es[j].0, key@) by {
                if j > mid && lex_lt(es[j].0, key@) {
                    lemma_lex_transitive(es[mid as int].0, es[j].0, key@);
                }
            }
            hi = mid;
        }
    }
    lo
}

/// The position of the entry named `key`, or, if there is none, the
/// position at which it would stand.
pub(crate) fn position<V>(held: &Vec<(String, V)>, key: &str) -> (r: (usize, bool))
    requires
        ascending(entries_of(held@)),
    ensures
        r.0 <= held@.len(),
        r.1 ==> r.0 < held@.len() && held@[r.0 as int].0@ == key@,
        r.1 == entries_map(entries_of(held@)).contains_key(key@),
        r.1 ==> entries_map(entries_of(held@))[key@] == held@[r.0 as int].1,
        forall|j: int| 0 <= j < r.0 ==> lex_lt(#[trigger] entries_of(held@)[j].0, key@),
        forall|j: int| r.0 <= j < held@.len() && !r.1 ==> lex_lt(key@, #[trigger] entries_of(held@)[j].0),
{
    let i = lower_bound(held, key);
    let ghost es = entries_of(held@);
    if i < held.len() {
        assert(es[i as int].0 == held@[i as int].0@);
        if str_eq(held[i].0.as_str(), key) {
            proof {
                assert(has_key(es, key@));
                lemma_entry_in_map(es, i as int);
            }
            return (i, true);
        }
    }
    proof {
        assert forall|j: int| i <= j < es.len() implies lex_lt(key@, #[trigger] es[j].0) by {
            lemma_lex_total(key@, es[j].0);
            if es[j].0 == key@ {
                if j > i {
                    lemma_lex_irreflexive(key@);
                }
            }
        }
        if has_key(es, key@) {
            let j = index_of_key(es, key@);
            lemma_lex_irreflexive(key@);
        }
    }
    (i, false)
}

/// Puts `value` under `key` and hands back what was there before.
pub(crate) fn insert_entry<V>(held: &mut Vec<(String, V)>, key: String, value: V) -> (r: Option<V>)
    requires
        ascending(entries_of(old(held)@)),
    ensures
        ascending(entries_of(final(held)@)),
        entries_map(entries_of(final(held)@)) == entries_map(entries_of(old(held)@)).insert(key@, value),
        match r {
            Some(v) => entries_map(entries_of(old(held)@)).contains_key(key@) && entries_map(
                entries_of(old(held)@),
            )[key@] == v,
            None => !entries_map(entries_of(old(held)@)).contains_key(key@),
        },
{
    let (i, found) = position(held, key.as_str());
    let ghost old_es = entries_of(held@);
    let ghost k = key@;
    if found {
        let (_, previous) = held.remove(i);
        held.insert(i, (key, value));
        proof {
            let es = entries_of(held@);
            assert(es =~= old_es.update(i as int, (k, value)));
            assert forall|a: int, b: int| 0 <= a < b < es.len() implies lex_lt(
                #[trigger] es[a].0,
                #[trigger] es[b].0,
            ) by {
                assert(es[a].0 == old_es[a].0 && es[b].0 == old_es[b].0);
            }
            assert(entries_map(es) =~= entries_map(old_es).insert(k, value)) by {
                assert forall|q: Seq<char>| has_key(es, q) <==> has_key(old_es, q) by {
                    if has_key(es, q) {
                        let a = index_of_key(es, q);
                        assert(old_es[a].0 == q);
                    }
                    if has_key(old_es, q) {
                        let a = index_of_key(old_es, q);
                        assert(es[a].0 == q);
                    }
                }
                assert forall|q: Seq<char>| has_key(es, q) implies entries_map(es)[q] == entries_map(
                    old_es,
                ).insert(k, value)[q] by {
                    let a = index_of_key(es, q);
                    lemma_entry_in_map(es, a);
                    if a != i {
                        assert(old_es[a].0 == q);
                        lemma_entry_in_map(old_es, a);
                        if q == k {
                            lemma_ascending_distinct(old_es, a, i as int);
                        }
                    }
                }
            }
        }
        Some(previous)
    } else {
        held.insert(i, (key, value));
        proof {
            let es = entries_of(held@);
            assert(es =~= old_es.insert(i as int, (k, value)));
            assert forall|a: int, b: int| 0 <= a < b < es.len() implies lex_lt(
                #[trigger] es[a].0,
                #[trigger] es[b].0,
            ) by {
                if b < i {
                    assert(es[a] == old_es[a] && es[b] == old_es[b]);
                } else if b == i {
                    assert(es[a] == old_es[a]);
                } else if a < i {
                    assert(es[a] == old_es[a] && es[b] == old_es[b - 1]);
                } else if a == i {
                    assert(es[b] == old_es[b - 1]);
                } else {
                    assert(es[a] == old_es[a - 1] && es[b] == old_es[b - 1]);
                }
            }
            assert(entries_map(es) =~= entries_map(old_es).insert(k, value)) by {
                assert forall|q: Seq<char>| has_key(es, q) <==> (has_key(old_es, q) || q == k) by {
                    if has_key(es, q) {
                        let a = index_of_key(es, q);
                        if a < i {
                            assert(old_es[a].0 == q);
                        } else if a > i {
                            assert(old_es[a - 1].0 == q);
                        }
                    }
                    if has_key(old_es, q) {
                        let a = index_of_key(old_es, q);
                        if a < i {
                            assert(es[a].0 == q);
                        } else {
                            assert(es[a + 1].0 == q);
                        }
                    }
                    if q == k {
                        assert(es[i as int].0 == q);
                    }
                }
                assert forall|q: Seq<char>| has_key(es, q) implies entries_map(es)[q] == entries_map(
                    old_es,
                ).insert(k, value)[q] by {
                    let a = index_of_key(es, q);
                    lemma_entry_in_map(es, a);
                    if a < i {
                        assert(old_es[a].0 == q);
                        lemma_entry_in_map(old_es, a);
                    } else if a > i {
                        assert(old_es[a - 1].0 == q);
                        lemma_entry_in_map(old_es, a - 1);
                    }
                }
            }
        }
        None
    }
}

/// Takes the entry at position `i` out.
pub(crate) fn take_entry_at<V>(held: &mut Vec<(String, V)>, i: usize) -> (r: (String, V))
    requires
        ascending(entries_of(old(held)@)),
        i < old(held)@.len(),
    ensures
        r == old(held)@[i as int],
        final(held)@ == old(held)@.remove(i as int),
        ascending(entries_of(final(held)@)),
        entries_map(entries_of(final(held)@)) == entries_map(entries_of(old(held)@)).remove(r.0@),
        entries_map(entries_of(old(held)@)).contains_key(r.0@),
        entries_map(entries_of(old(held)@))[r.0@] == r.1,
{
    let ghost old_es = entries_of(held@);
    let entry = held.remove(i);
    proof {
        let es = entries_of(held@);
        let k = entry.0@;
        assert(es =~= old_es.remove(i as int));
        lemma_entry_in_map(old_es, i as int);
        assert forall|a: int, b: int| 0 <= a < b < es.len() implies lex_lt(
            #[trigger] es[a].0,
            #[trigger] es[b].0,
        ) by {
            let a0 = if a < i { a } else { a + 1 };
            let b0 = if b < i { b } else { b + 1 };
            assert(es[a] == old_es[a0] && es[b] == old_es[b0]);
        }
        assert(entries_map(es) =~= entries_map(old_es).remove(k)) by {
            assert forall|q: Seq<char>| has_key(es, q) <==> (has_key(old_es, q) && q != k) by {
                if has_key(es, q) {
                    let a = index_of_key(es, q);
                    let a0 = if a < i { a } else { a + 1 };
                    assert(old_es[a0].0 == q);
                    if q == k {
                        lemma_ascending_distinct(old_es, a0, i as int);
                    }
                }
                if has_key(old_es, q) && q != k {
                    let a = index_of_key(old_es, q);
                    if a < i {
                        assert(es[a].0 == q);
                    } else {
                        assert(es[a - 1].0 == q);
                    }
                }
            }
            assert forall|q: Seq<char>| has_key(es, q) implies entries_map(es)[q] == entries_map(old_es)[q] by {
                let a = index_of_key(es, q);
                lemma_entry_in_map(es, a);
                let a0 = if a < i { a } else { a + 1 };
                assert(old_es[a0].0 == q);
                lemma_entry_in_map(old_es, a0);
            }
        }
    }
    entry
}

/// A map from names to values, in ascending order of the names.
pub struct NameMap<V> {
    held: Vec<(String, V)>,
}

impl<V> NameMap<V> {
    #[verifier::type_invariant]
    spec fn ordered(&self) -> bool {
        ascending(entries_of(self.held@))
    }

    /// The entries in the order in which they are held.
    pub closed spec fn entries(&self) -> Seq<(Seq<char>, V)> {
        entries_of(self.held@)
    }

    /// The map from each name to its value.
    pub open spec fn map(&self) -> Map<Seq<char>, V> {
        entries_map(self.entries())
    }

    /// An empty map.
    pub fn new() -> (m: NameMap<V>)
        ensures
            m.entries() == Seq::<(Seq<char>, V)>::empty(),
            m.map() == Map::<Seq<char>, V>::empty(),
    {
        let m = NameMap { held: Vec::new() };
        assert(m.entries() =~= Seq::<(Seq<char>, V)>::empty());
        assert(m.map() =~= Map::<Seq<char>, V>::empty());
        m
    }

    /// The number of entries.
    pub fn len(&self) -> (n: usize)
        ensures
            n == self.entries().len(),
            ascending(self.entries()),
            self.map().dom().finite(),
            n == self.map().dom().len(),
    {
        proof {
            use_type_invariant(self);
            lemma_entries_map_len(self.entries());
        }
        self.held.len()
    }

    /// Whether the map has no entry.
    pub fn is_empty(&self) -> (r: bool)
        ensures
            r == (self.entries().len() == 0),
    {
        self.held.len() == 0
    }

    /// The name of the entry at position `i`.
    pub fn key_at(&self, i: usize) -> (k: &str)
        requires
            i < self.entries().len(),
        ensures
            k@ == self.entries()[i as int].0,
            self.map().contains_key(k@),
    {
        proof {
            use_type_invariant(self);
            lemma_entry_in_map(self.entries(), i as int);
        }
        self.held[i].0.as_str()
    }

    /// The value of the entry at position `i`.
    pub fn value_at(&self, i: usize) -> (v: &V)
        requires
            i < self.entries().len(),
        ensures
            *v == self.entries()[i as int].1,
            self.map()[self.entries()[i as int].0] == *v,
    {
        proof {
            use_type_invariant(self);
            lemma_entry_in_map(self.entries(), i as int);
        }
        &self.held[i].1
    }

    /// Whether the map has an entry named `key`.
    pub fn contains_key(&self, key: &str) -> (r: bool)
        ensures
            r == self.map().contains_key(key@),
    {
        proof {
            use_type_invariant(self);
        }
        let (_, found) = position(&self.held, key);
        found
    }

    /// Takes every entry of `other` into the map; where both have a name,
    /// the value of `other` stays.
    pub fn extend(&mut self, other: NameMap<V>)
        ensures
            final(self).map() == old(self).map().union_prefer_right(other.map()),
            ascending(final(self).entries()),
    {
        let mut rest = other;
        let mut left = rest.len();
        proof {
            use_type_invariant(&*self);
            assert(self.map().union_prefer_right(rest.map()) =~= old(self).map().union_prefer_right(
                other.map(),
            ));
        }
        while left > 0
            invariant
                left == rest.map().dom().len(),
                rest.map().dom().finite(),
                self.map().union_prefer_right(rest.map()) == old(self).map().union_prefer_right(other.map()),
                ascending(self.entries()),
            decreases left,
        {
            let ghost before = self.map();
            let ghost rest_before = rest.map();
            match rest.pop_first() {
                Some((key, value)) => {
                    self.insert(key, value);
                    proof {
                        assert(self.map().union_prefer_right(rest.map()) =~= before.union_prefer_right(
                            rest_before,
                        ));
                    }
                },
                None => {
                    proof {
                        assert(rest_before.dom().len() == 0);
                    }
                },
            }
            left = rest.len();
        }
        proof {
            assert(rest.map() =~= Map::<Seq<char>, V>::empty());
            assert(self.map().union_prefer_right(rest.map()) =~= self.map());
        }
    }

    /// The value under `key`.
    pub fn get(&self, key: &str) -> (r: Option<&V>)
        ensures
            match r {
                Some(v) => self.map().contains_key(key@) && self.map()[key@] == *v,
                None => !self.map().contains_key(key@),
            },
    {
        proof {
            use_type_invariant(self);
        }
        let (i, found) = position(&self.held, key);
        if found {
            Some(&self.held[i].1)
        } else {
            None
        }
    }

    /// Puts `value` under `key` and hands back what was there before.
    pub fn insert(&mut self, key: String, value: V) -> (r: Option<V>)
        ensures
            final(self).map() == old(self).map().insert(key@, value),
            match r {
                Some(v) => old(self).map().contains_key(key@) && old(self).map()[key@] == v,
                None => !old(self).map().contains_key(key@),
            },
            ascending(final(self).entries()),
    {
        proof {
            use_type_invariant(&*self);
        }
        let mut held: Vec<(String, V)> = Vec::new();
        std::mem::swap(&mut self.held, &mut held);
        let r = insert_entry(&mut held, key, value);
        std::mem::swap(&mut self.held, &mut held);
        r
    }

    /// Takes the value under `key` out of the map.
    pub fn remove(&mut self, key: &str) -> (r: Option<V>)
        ensures
            final(self).map() == old(self).map().remove(key@),
            match r {
                Some(v) => old(self).map().contains_key(key@) && old(self).map()[key@] == v,
                None => !old(self).map().contains_key(key@),
            },
            ascending(final(self).entries()),
    {
        proof {
            use_type_invariant(&*self);
        }
        let (i, found) = position(&self.held, key);
        if found {
            let mut held: Vec<(String, V)> = Vec::new();
            std::mem::swap(&mut self.held, &mut held);
            let (_, value) = take_entry_at(&mut held, i);
            std::mem::swap(&mut self.held, &mut held);
            Some(value)
        } else {
            assert(self.map().remove(key@) =~= self.map());
            None
        }
    }

    /// Takes the entry with the least name out of the map.
    pub fn pop_first(&mut self) -> (r: Option<(String, V)>)
        ensures
            match r {
                Some(entry) => {
                    &&& old(self).map().contains_key(entry.0@)
                    &&& old(self).map()[entry.0@] == entry.1
                    &&& final(self).map() == old(self).map().remove(entry.0@)
                    &&& forall|k: Seq<char>| #[trigger]
                        final(self).map().contains_key(k) ==> lex_lt(entry.0@, k)
                },
                None => old(self).map() == Map::<Seq<char>, V>::empty() && final(self).map() == old(
                    self,
                ).map(),
            },
            ascending(final(self).entries()),
    {
        proof {
            use_type_invariant(&*self);
        }
        if self.held.len() == 0 {
            assert(self.map() =~= Map::<Seq<char>, V>::empty());
            None
        } else {
            let ghost old_es = self.entries();
            let mut held: Vec<(String, V)> = Vec::new();
            std::mem::swap(&mut self.held, &mut held);
            let entry = take_entry_at(&mut held, 0);
            std::mem::swap(&mut self.held, &mut held);
            proof {
                let es = self.entries();
                assert(es =~= old_es.remove(0));
                assert forall|k: Seq<char>| #[trigger] self.map().contains_key(k) implies lex_lt(
                    entry.0@,
                    k,
                ) by {
                    let a = index_of_key(es, k);
                    assert(es[a] == old_es[a + 1]);
                    assert(lex_lt(old_es[0].0, old_es[a + 1].0));
                }
            }
            Some(entry)
        }
    }
}

/// A set of names, in ascending order.
pub struct NameSet {
    members: NameMap<()>,
}

impl NameSet {
    /// The names in the set.
    pub closed spec fn names(&self) -> Set<Seq<char>> {
        self.members.map().dom()
    }

    /// The names in ascending order.
    pub closed spec fn ordered_names(&self) -> Seq<Seq<char>> {
        Seq::new(self.members.entries().len(), |i: int| self.members.entries()[i].0)
    }

    /// An empty set.
    pub fn new() -> (s: NameSet)
        ensures
            s.names() == Set::<Seq<char>>::empty(),
    {
        let s = NameSet { members: NameMap::new() };
        assert(s.names() =~= Set::<Seq<char>>::empty());
        s
    }

    /// The number of names.
    pub fn len(&self) -> (n: usize)
        ensures
            self.names().finite(),
            n == self.names().len(),
            n == self.ordered_names().len(),
    {
        self.members.len()
    }

    /// Whether the set holds no name.
    pub fn is_empty(&self) -> (r: bool)
        ensures
            r == (self.names() == Set::<Seq<char>>::empty()),
    {
        let n = self.members.len();
        proof {
            if n == 0 {
                assert(self.names() =~= Set::<Seq<char>>::empty());
            } else {
                lemma_entry_in_map(self.members.entries(), 0);
            }
        }
        n == 0
    }

    /// Whether `name` is in the set.
    pub fn contains(&self, name: &str) -> (r: bool)
        ensures
            r == self.names().contains(name@),
    {
        self.members.contains_key(name)
    }

    /// The name at position `i` of the ascending order.
    pub fn name_at(&self, i: usize) -> (name: &str)
        requires
            i < self.ordered_names().len(),
        ensures
            name@ == self.ordered_names()[i as int],
            self.names().contains(name@),
    {
        self.members.key_at(i)
    }

    /// Every name of the ascending order is in the set, and every name of
    /// the set is in the ascending order.
    pub proof fn lemma_ordered_names(&self)
        ensures
            forall|i: int|
                0 <= i < self.ordered_names().len() ==> self.names().contains(
                    #[trigger] self.ordered_names()[i],
                ),
            forall|n: Seq<char>|
                self.names().contains(n) ==> exists|i: int|
                    0 <= i < self.ordered_names().len() && #[trigger] self.ordered_names()[i] == n,
    {
        let es = self.members.entries();
        assert forall|i: int| 0 <= i < self.ordered_names().len() implies self.names().contains(
            #[trigger] self.ordered_names()[i],
        ) by {
            assert(has_key(es, es[i].0));
        }
        assert forall|n: Seq<char>| self.names().contains(n) implies exists|i: int|
            0 <= i < self.ordered_names().len() && #[trigger] self.ordered_names()[i] == n by {
            let i = index_of_key(es, n);
            assert(self.ordered_names()[i] == n);
        }
    }

    /// The names, in ascending order.
    pub fn to_vec(&self) -> (r: Vec<String>)
        ensures
            texts(r@) == self.ordered_names(),
    {
        let count = self.members.len();
        let mut out: Vec<String> = Vec::new();
        let mut i: usize = 0;
        while i < count
            invariant
                i <= count,
                count == self.ordered_names().len(),
                out@.len() == i,
                forall|j: int| 0 <= j < i ==> out@[j]@ == self.ordered_names()[j],
            decreases count - i,
        {
            out.push(self.members.key_at(i).to_owned());
            i += 1;
        }
        assert(texts(out@) =~= self.ordered_names());
        out
    }

    /// Adds `name`; says whether it was new.
    pub fn insert(&mut self, name: String) -> (r: bool)
        ensures
            final(self).names() == old(self).names().insert(name@),
            r == !old(self).names().contains(name@),
    {
        let previous = self.members.insert(name, ());
        assert(self.names() =~= old(self).names().insert(name@));
        previous.is_none()
    }

    /// Takes `name` out of the set; says whether it was there.
    pub fn remove(&mut self, name: &str) -> (r: bool)
        ensures
            final(self).names() == old(self).names().remove(name@),
            r == old(self).names().contains(name@),
    {
        let previous = self.members.remove(name);
        assert(self.names() =~= old(self).names().remove(name@));
        previous.is_some()
    }

    /// Takes the least name out of the set.
    pub fn pop_first(&mut self) -> (r: Option<String>)
        ensures
            match r {
                Some(name) => {
                    &&& old(self).names().contains(name@)
                    &&& final(self).names() == old(self).names().remove(name@)
                    &&& forall|k: Seq<char>| #[trigger]
                        final(self).names().contains(k) ==> lex_lt(name@, k)
                },
                None => old(self).names() == Set::<Seq<char>>::empty() && final(self).names()
                    == old(self).names(),
            },
    {
        match self.members.pop_first() {
            Some((name, _)) => {
                assert(self.names() =~= old(self).names().remove(name@));
                Some(name)
            },
            None => {
                assert(self.names() =~= Set::<Seq<char>>::empty());
                None
            },
        }
    }
}

} // verus!

//! A small map from names to values, kept as a list with unique keys.
//!
//! Repositories, sessions and locks are all looked up by name. The map keeps
//! its entries in the order in which their keys first arrived, so that a
//! listing is reproducible, and its view is the mathematical map from a key's
//! text to its value.

use vstd::prelude::*;
use crate::text::same_text;

verus! {

/// Whether some entry of `entries` has the key `k`.
pub open spec fn has_key<V>(entries: Seq<(String, V)>, k: Seq<char>) -> bool {
    exists|i: int| 0 <= i < entries.len() && (#[trigger] entries[i]).0@ == k
}

/// The index of an entry with key `k`.
pub open spec fn key_index<V>(entries: Seq<(String, V)>, k: Seq<char>) -> int {
    choose|i: int| 0 <= i < entries.len() && (#[trigger] entries[i]).0@ == k
}

/// No two entries share a key.
pub open spec fn distinct_keys<V>(entries: Seq<(String, V)>) -> bool {
    forall|i: int, j: int|
        0 <= i < j < entries.len() ==> (#[trigger] entries[i]).0@ != (#[trigger] entries[j]).0@
}

/// The map that a list of entries with distinct keys stands for.
pub open spec fn as_map<V>(entries: Seq<(String, V)>) -> Map<Seq<char>, V> {
    Map::new(|k: Seq<char>| has_key(entries, k), |k: Seq<char>| entries[key_index(entries, k)].1)
}

/// In a list with distinct keys, every entry is found under its own key.
pub proof fn lemma_entry_in_map<V>(entries: Seq<(String, V)>, i: int)
    requires
        distinct_keys(entries),
        0 <= i < entries.len(),
    ensures
        as_map(entries).dom().contains(entries[i].0@),
        as_map(entries)[entries[i].0@] == entries[i].1,
        key_index(entries, entries[i].0@) == i,
{
    let k = entries[i].0@;
    assert(has_key(entries, k));
    let j = key_index(entries, k);
    assert(0 <= j < entries.len() && entries[j].0@ == k);
    if j < i {
        assert(entries[j].0@ != entries[i].0@);
    } else if i < j {
        assert(entries[i].0@ != entries[j].0@);
    }
}

/// `keys` without the first occurrence of `key`.
pub open spec fn without_key(keys: Seq<Seq<char>>, key: Seq<char>) -> Seq<Seq<char>>
    decreases keys.len(),
{
    if keys.len() == 0 {
        keys
    } else if keys[0] == key {
        keys.drop_first()
    } else {
        seq![keys[0]] + without_key(keys.drop_first(), key)
    }
}

/// Taking `key` out of a list removes it at its first position, and
/// leaves a list that does not hold it unchanged.
pub proof fn lemma_without_key(keys: Seq<Seq<char>>, key: Seq<char>, at: int)
    requires
        0 <= at <= keys.len(),
        forall|j: int| 0 <= j < at ==> keys[j] != key,
        at < keys.len() ==> keys[at] == key,
    ensures
        at < keys.len() ==> without_key(keys, key) == keys.remove(at),
        at == keys.len() ==> without_key(keys, key) == keys,
    decreases keys.len(),
{
    if keys.len() > 0 {
        if at == 0 {
            assert(keys.remove(0) =~= keys.drop_first());
        } else {
            let rest = keys.drop_first();
            assert forall|j: int| 0 <= j < at - 1 implies rest[j] != key by {
                assert(rest[j] == keys[j + 1]);
            }
            lemma_without_key(rest, key, at - 1);
            if at < keys.len() {
                assert(seq![keys[0]] + rest.remove(at - 1) =~= keys.remove(at));
            } else {
                assert(seq![keys[0]] + rest =~= keys);
            }
        }
    }
}

/// A map from names to values.
pub struct NameMap<V> {
    entries: Vec<(String, V)>,
}

impl<V> View for NameMap<V> {
    type V = Map<Seq<char>, V>;

    closed spec fn view(&self) -> Map<Seq<char>, V> {
        as_map(self.entries@)
    }
}

impl<V> NameMap<V> {
    #[verifier::type_invariant]
    spec fn well_formed(&self) -> bool {
        distinct_keys(self.entries@)
    }

    /// The keys in the order in which they were first inserted.
    pub closed spec fn keys(&self) -> Seq<Seq<char>> {
        Seq::new(self.entries@.len(), |i: int| self.entries@[i].0@)
    }

    /// The empty map.
    pub fn new() -> (m: Self)
        ensures
            m@ == Map::<Seq<char>, V>::empty(),
            m.keys() == Seq::<Seq<char>>::empty(),
    {
        let m = NameMap { entries: Vec::new() };
        assert(m@ =~= Map::<Seq<char>, V>::empty());
        assert(m.keys() =~= Seq::<Seq<char>>::empty());
        m
    }

    /// The number of entries. The keys listed by `keys` are exactly the
    /// domain of the view, each once.
    pub fn len(&self) -> (n: usize)
        ensures
            n == self.keys().len(),
            forall|k: Seq<char>| self@.dom().contains(k) <==> self.keys().contains(k),
            self.keys().no_duplicates(),
    {
        proof {
            use_type_invariant(self);
            let entries = self.entries@;
            let keys = self.keys();
            assert forall|k: Seq<char>| self@.dom().contains(k) <==> keys.contains(k) by {
                if self@.dom().contains(k) {
                    let i = key_index(entries, k);
                    assert(keys[i] == k);
                }
                if keys.contains(k) {
                    let i = choose|i: int| 0 <= i < keys.len() && keys[i] == k;
                    assert(entries[i].0@ == k);
                }
            }
            assert forall|i: int, j: int|
                0 <= i < keys.len() && 0 <= j < keys.len() && i != j implies keys[i] != keys[j] by {
                if i < j {
                    assert(entries[i].0@ != entries[j].0@);
                } else {
                    assert(entries[j].0@ != entries[i].0@);
                }
            }
        }
        self.entries.len()
    }

    fn position(&self, key: &str) -> (at: usize)
        ensures
            at <= self.entries@.len(),
            at < self.entries@.len() ==> self.entries@[at as int].0@ == key@,
            at == self.entries@.len() ==> !has_key(self.entries@, key@),
            at < self.entries@.len() <==> self@.dom().contains(key@),
            at < self.entries@.len() ==> self@[key@] == self.entries@[at as int].1,
    {
        proof {
            use_type_invariant(self);
        }
        let mut i: usize = 0;
        while i < self.entries.len()
            invariant
                i <= self.entries@.len(),
                distinct_keys(self.entries@),
                forall|j: int| 0 <= j < i ==> (#[trigger] self.entries@[j]).0@ != key@,
            decreases self.entries@.len() - i,
        {
            if same_text(self.entries[i].0.as_str(), key) {
                proof {
                    lemma_entry_in_map(self.entries@, i as int);
                }
                return i;
            }
            i = i + 1;
        }
        i
    }

    /// Whether `key` has a value.
    pub fn contains_key(&self, key: &str) -> (yes: bool)
        ensures
            yes == self@.dom().contains(key@),
    {
        self.position(key) < self.entries.len()
    }

    /// The value stored under `key`, if any.
    pub fn get(&self, key: &str) -> (found: Option<&V>)
        ensures
            found is Some <==> self@.dom().contains(key@),
            found is Some ==> *found->0 == self@[key@],
    {
        let at = self.position(key);
        if at < self.entries.len() {
            Some(&self.entries[at].1)
        } else {
            None
        }
    }

    /// Stores `value` under `key`, replacing what was there.
    pub fn insert(&mut self, key: &str, value: V)
        ensures
            final(self)@ == old(self)@.insert(key@, value),
            old(self)@.dom().contains(key@) ==> final(self).keys() == old(self).keys(),
            !old(self)@.dom().contains(key@) ==> final(self).keys() == old(self).keys().push(key@),
    {
        proof {
            use_type_invariant(&*self);
        }
        let at = self.position(key);
        let ghost before = self.entries@;
        if at < self.entries.len() {
            let mut list: Vec<(String, V)> = Vec::new();
            core::mem::swap(&mut self.entries, &mut list);
            let (name, _) = list.remove(at);
            list.insert(at, (name, value));
            proof {
                let after = list@;
                assert(after.len() == before.len());
                assert forall|i: int| 0 <= i < after.len() implies (#[trigger] after[i]).0@ == before[i].0@ by {}
                assert(distinct_keys(after)) by {
                    assert forall|i: int, j: int| 0 <= i < j < after.len() implies (#[trigger] after[i]).0@ != (#[trigger] after[j]).0@ by {
                        assert(before[i].0@ != before[j].0@);
                    }
                }
                assert forall|k: Seq<char>| has_key(after, k) <==> has_key(before, k) by {
                    if has_key(before, k) {
                        let i = key_index(before, k);
                        assert(after[i].0@ == k);
                    }
                    if has_key(after, k) {
                        let i = key_index(after, k);
                        assert(before[i].0@ == k);
                    }
                }
                assert(has_key(before, key@));
                assert forall|k: Seq<char>| has_key(after, k) implies #[trigger] as_map(after)[k] == as_map(before).insert(key@, value)[k] by {
                    let i = key_index(after, k);
                    lemma_entry_in_map(after, i);
                    lemma_entry_in_map(before, i);
                }
                assert(as_map(after) =~= as_map(before).insert(key@, value));
            }
            self.entries = list;
            assert(self.keys() =~= old(self).keys());
        } else {
            let mut list: Vec<(String, V)> = Vec::new();
            core::mem::swap(&mut self.entries, &mut list);
            list.push((key.to_owned(), value));
            proof {
                let after = list@;
                assert forall|i: int| 0 <= i < before.len() implies (#[trigger] after[i]) == before[i] by {}
                assert(distinct_keys(after)) by {
                    assert forall|i: int, j: int| 0 <= i < j < after.len() implies (#[trigger] after[i]).0@ != (#[trigger] after[j]).0@ by {
                        if j < before.len() {
                            assert(before[i].0@ != before[j].0@);
                        } else {
                            assert(before[i].0@ != key@);
                        }
                    }
                }
                assert forall|k: Seq<char>| has_key(after, k) <==> (has_key(before, k) || k == key@) by {
                    if has_key(before, k) {
                        let i = key_index(before, k);
                        assert(after[i].0@ == k);
                    }
                    if k == key@ {
                        assert(after[before.len() as int].0@ == k);
                    }
                    if has_key(after, k) {
                        let i = key_index(after, k);
                        if i < before.len() {
                            assert(before[i].0@ == k);
                        }
                    }
                }
                assert forall|k: Seq<char>| has_key(after, k) implies #[trigger] as_map(after)[k] == as_map(before).insert(key@, value)[k] by {
                    let i = key_index(after, k);
                    lemma_entry_in_map(after, i);
                    if i < before.len() {
                        lemma_entry_in_map(before, i);
                    }
                }
                assert(as_map(after) =~= as_map(before).insert(key@, value));
            }
            self.entries = list;
            assert(self.keys() =~= old(self).keys().push(key@));
        }
    }

    /// Removes `key` and hands back what was stored under it.
    pub fn remove(&mut self, key: &str) -> (taken: Option<V>)
        ensures
            final(self)@ == old(self)@.remove(key@),
            taken is Some <==> old(self)@.dom().contains(key@),
            taken is Some ==> taken->0 == old(self)@[key@],
            final(self).keys() == without_key(old(self).keys(), key@),
            !old(self)@.dom().contains(key@) ==> final(self).keys() == old(self).keys(),
    {
        proof {
            use_type_invariant(&*self);
        }
        let at = self.position(key);
        let ghost before = self.entries@;
        if at < self.entries.len() {
            let mut list: Vec<(String, V)> = Vec::new();
            core::mem::swap(&mut self.entries, &mut list);
            let (_, value) = list.remove(at);
            proof {
                let after = list@;
                assert forall|i: int| 0 <= i < after.len() implies (#[trigger] after[i]) == before[if i < at { i } else { i + 1 }] by {}
                assert(distinct_keys(after)) by {
                    assert forall|i: int, j: int| 0 <= i < j < after.len() implies (#[trigger] after[i]).0@ != (#[trigger] after[j]).0@ by {
                        let bi = if i < at { i } else { i + 1 };
                        let bj = if j < at { j } else { j + 1 };
                        assert(before[bi].0@ != before[bj].0@);
                    }
                }
                assert forall|k: Seq<char>| has_key(after, k) <==> (has_key(before, k) && k != key@) by {
                    if has_key(before, k) && k != key@ {
                        let i = key_index(before, k);
                        let ai = if i < at { i } else { i - 1 };
                        assert(after[ai].0@ == k);
                    }
                    if has_key(after, k) {
                        let i = key_index(after, k);
                        let bi = if i < at { i } else { i + 1 };
                        assert(before[bi].0@ == k);
                        if bi < at {
                            assert(before[bi].0@ != before[at as int].0@);
                        } else {
                            assert(before[at as int].0@ != before[bi].0@);
                        }
                    }
                }
                assert forall|k: Seq<char>| has_key(after, k) implies #[trigger] as_map(after)[k] == as_map(before).remove(key@)[k] by {
                    let i = key_index(after, k);
                    let bi = if i < at { i } else { i + 1 };
                    lemma_entry_in_map(after, i);
                    lemma_entry_in_map(before, bi);
                }
                assert(as_map(after) =~= as_map(before).remove(key@));
            }
            self.entries = list;
            proof {
                let keys = old(self).keys();
                assert(keys[at as int] == key@);
                assert forall|j: int| 0 <= j < at implies keys[j] != key@ by {
                    assert(before[j].0@ != before[at as int].0@);
                }
                lemma_without_key(keys, key@, at as int);
                assert(self.keys() =~= keys.remove(at as int));
            }
            Some(value)
        } else {
            assert(as_map(before) =~= as_map(before).remove(key@));
            proof {
                let keys = old(self).keys();
                assert forall|j: int| 0 <= j < keys.len() implies keys[j] != key@ by {
                    assert(before[j].0@ != key@);
                }
                lemma_without_key(keys, key@, keys.len() as int);
            }
            None
        }
    }

    /// The key of the `i`-th entry.
    pub fn key_at(&self, i: usize) -> (key: &String)
        requires
            i < self.keys().len(),
        ensures
            key@ == self.keys()[i as int],
    {
        &self.entries[i].0
    }

    /// The value of the `i`-th entry.
    pub fn value_at(&self, i: usize) -> (value: &V)
        requires
            i < self.keys().len(),
        ensures
            self@.dom().contains(self.keys()[i as int]),
            *value == self@[self.keys()[i as int]],
    {
        proof {
            use_type_invariant(self);
            lemma_entry_in_map(self.entries@, i as int);
        }
        &self.entries[i].1
    }
}

} // verus!

//! Maps held as lists without repeated keys: keyed by static text, or by a
//! version number.

use std::sync::Arc;
use vstd::prelude::*;

use crate::text::str_eq;

verus! {

/// No two entries of the list have the same key.
pub open spec fn distinct_keys<K, T>(entries: Seq<(K, T)>) -> bool {
    forall|i: int, j: int|
        #![trigger entries[i], entries[j]]
        0 <= i < j < entries.len() ==> entries[i].0 != entries[j].0
}

/// Whether some entry of the list has this key.
pub open spec fn has_key<K, T>(entries: Seq<(K, T)>, key: K) -> bool {
    exists|i: int| 0 <= i < entries.len() && (#[trigger] entries[i]).0 == key
}

/// The position of an entry with this key.
pub open spec fn key_position<K, T>(entries: Seq<(K, T)>, key: K) -> int {
    choose|i: int| 0 <= i < entries.len() && (#[trigger] entries[i]).0 == key
}

/// The map that a list of entries stands for.
pub open spec fn entries_map<K, T>(entries: Seq<(K, T)>) -> Map<K, T> {
    Map::new(|key: K| has_key(entries, key), |key: K| entries[key_position(entries, key)].1)
}

/// The value that a map holds for a key, if it holds one.
pub open spec fn lookup<K, T>(map: Map<K, T>, key: K) -> Option<T> {
    if map.contains_key(key) {
        Some(map[key])
    } else {
        None
    }
}

/// Every entry of a list without repeated keys is found under its key.
pub proof fn lemma_entry_in_map<K, T>(entries: Seq<(K, T)>, i: int)
    requires
        distinct_keys(entries),
        0 <= i < entries.len(),
    ensures
        entries_map(entries).contains_key(entries[i].0),
        entries_map(entries)[entries[i].0] == entries[i].1,
{
    let key = entries[i].0;
    assert(has_key(entries, key));
    let p = key_position(entries, key);
    assert(entries[p].0 == key);
    assert(p == i);
}

/// What appending an entry with a new key does to the map.
pub proof fn lemma_push_entry<K, T>(entries: Seq<(K, T)>, key: K, value: T)
    requires
        distinct_keys(entries),
        !has_key(entries, key),
    ensures
        distinct_keys(entries.push((key, value))),
        entries_map(entries.push((key, value))) == entries_map(entries).insert(key, value),
{
    let after = entries.push((key, value));
    assert(distinct_keys(after)) by {
        assert forall|i: int, j: int|
            #![trigger after[i], after[j]]
            0 <= i < j < after.len() implies after[i].0 != after[j].0 by {
            assert(after[i] == entries[i]);
            if j < entries.len() {
                assert(after[j] == entries[j]);
            }
        }
    }
    let left = entries_map(after);
    let right = entries_map(entries).insert(key, value);
    assert forall|k: K|
        #![trigger left.dom().contains(k)]
        #![trigger right.dom().contains(k)]
        left.dom().contains(k) == right.dom().contains(k) && (left.dom().contains(k) ==> left[k]
            == right[k]) by {
        if has_key(entries, k) {
            let p = key_position(entries, k);
            assert(after[p] == entries[p]);
            lemma_entry_in_map(after, p);
        } else if k == key {
            assert(after[entries.len() as int] == (key, value));
            lemma_entry_in_map(after, entries.len() as int);
        } else if has_key(after, k) {
            let p = key_position(after, k);
            assert(after[p].0 == k);
            assert(p < entries.len());
            assert(entries[p] == after[p]);
        }
    }
    assert(left =~= right);
}

/// What replacing the value of an entry does to the map.
pub proof fn lemma_update_entry<K, T>(entries: Seq<(K, T)>, i: int, value: T)
    requires
        distinct_keys(entries),
        0 <= i < entries.len(),
    ensures
        distinct_keys(entries.update(i, (entries[i].0, value))),
        entries_map(entries.update(i, (entries[i].0, value))) == entries_map(entries).insert(
            entries[i].0,
            value,
        ),
{
    let key = entries[i].0;
    let after = entries.update(i, (key, value));
    assert forall|a: int, b: int|
        #![trigger after[a], after[b]]
        0 <= a < b < after.len() implies after[a].0 != after[b].0 by {
        assert(after[a].0 == entries[a].0);
        assert(after[b].0 == entries[b].0);
    }
    let left = entries_map(after);
    let right = entries_map(entries).insert(key, value);
    assert forall|k: K|
        #![trigger left.dom().contains(k)]
        #![trigger right.dom().contains(k)]
        left.dom().contains(k) == right.dom().contains(k) && (left.dom().contains(k) ==> left[k]
            == right[k]) by {
        if has_key(entries, k) {
            let p = key_position(entries, k);
            assert(after[p].0 == entries[p].0);
            lemma_entry_in_map(after, p);
            lemma_entry_in_map(entries, p);
        } else if has_key(after, k) {
            let p = key_position(after, k);
            assert(after[p].0 == k);
            assert(entries[p].0 == k);
        }
    }
    assert(left =~= right);
}

/// What removing an entry does to the map.
pub proof fn lemma_remove_entry<K, T>(entries: Seq<(K, T)>, i: int)
    requires
        distinct_keys(entries),
        0 <= i < entries.len(),
    ensures
        distinct_keys(entries.remove(i)),
        entries_map(entries.remove(i)) == entries_map(entries).remove(entries[i].0),
{
    let key = entries[i].0;
    let after = entries.remove(i);
    assert forall|a: int, b: int|
        #![trigger after[a], after[b]]
        0 <= a < b < after.len() implies after[a].0 != after[b].0 by {
        let c = if a < i { a } else { a + 1 };
        let d = if b < i { b } else { b + 1 };
        assert(after[a] == entries[c]);
        assert(after[b] == entries[d]);
    }
    let left = entries_map(after);
    let right = entries_map(entries).remove(key);
    assert forall|k: K|
        #![trigger left.dom().contains(k)]
        #![trigger right.dom().contains(k)]
        left.dom().contains(k) == right.dom().contains(k) && (left.dom().contains(k) ==> left[k]
            == right[k]) by {
        if has_key(after, k) {
            let p = key_position(after, k);
            let q = if p < i { p } else { p + 1 };
            assert(after[p] == entries[q]);
            assert(entries[q].0 == k);
            lemma_entry_in_map(entries, q);
            lemma_entry_in_map(after, p);
            assert(q != i);
            if q < i { assert(entries[q].0 != entries[i].0); } else { assert(entries[i].0 != entries[q].0); }
        } else if has_key(entries, k) {
            let q = key_position(entries, k);
            assert(entries[q].0 == k);
            if q != i {
                let p = if q < i { q } else { q - 1 };
                assert(after[p] == entries[q]);
            }
        }
    }
    assert(left =~= right);
}

/// A map from static text to values. The entries keep the order in which
/// their keys came in; a key occurs once.
pub struct KeyMap<T> {
    entries: Vec<(&'static str, T)>,
}

impl<T> View for KeyMap<T> {
    type V = Map<Seq<char>, T>;

    open spec fn view(&self) -> Map<Seq<char>, T> {
        entries_map(self.entry_seq())
    }
}

impl<T> KeyMap<T> {
    /// The entries in their order.
    pub closed spec fn entry_seq(&self) -> Seq<(Seq<char>, T)> {
        Seq::new(self.entries@.len(), |i: int| (self.entries@[i].0@, self.entries@[i].1))
    }

    #[verifier::type_invariant]
    spec fn keys_are_distinct(&self) -> bool {
        distinct_keys(self.entry_seq())
    }

    /// A map without entries.
    pub fn new() -> (r: Self)
        ensures
            r@ == Map::<Seq<char>, T>::empty(),
            r.entry_seq() == Seq::<(Seq<char>, T)>::empty(),
    {
        let r = KeyMap { entries: Vec::new() };
        assert(r.entry_seq() =~= Seq::<(Seq<char>, T)>::empty());
        assert(r@ =~= Map::<Seq<char>, T>::empty());
        r
    }

    /// The number of entries.
    pub fn len(&self) -> (r: usize)
        ensures
            r == self.entry_seq().len(),
            distinct_keys(self.entry_seq()),
    {
        proof {
            use_type_invariant(self);
        }
        self.entries.len()
    }

    /// Whether there is no entry.
    pub fn is_empty(&self) -> (r: bool)
        ensures
            r == (self.entry_seq().len() == 0),
            r == (self@ == Map::<Seq<char>, T>::empty()),
    {
        proof {
            use_type_invariant(self);
            if self.entry_seq().len() == 0 {
                assert(self@ =~= Map::<Seq<char>, T>::empty());
            } else {
                lemma_entry_in_map(self.entry_seq(), 0);
            }
        }
        self.entries.len() == 0
    }

    /// The key of the entry at a position.
    pub fn key_at(&self, i: usize) -> (r: &'static str)
        requires
            i < self.entry_seq().len(),
        ensures
            r@ == self.entry_seq()[i as int].0,
    {
        self.entries[i].0
    }

    /// The value of the entry at a position.
    pub fn value_at(&self, i: usize) -> (r: &T)
        requires
            i < self.entry_seq().len(),
        ensures
            *r == self.entry_seq()[i as int].1,
    {
        &self.entries[i].1
    }

    /// The position of the entry with this key.
    fn position(&self, key: &str) -> (r: Option<usize>)
        ensures
            match r {
                Some(i) => i < self.entry_seq().len() && self.entry_seq()[i as int].0 == key@,
                None => !has_key(self.entry_seq(), key@),
            },
    {
        let mut i: usize = 0;
        while i < self.entries.len()
            invariant
                i <= self.entries@.len(),
                forall|j: int| 0 <= j < i ==> (#[trigger] self.entry_seq()[j]).0 != key@,
            decreases self.entries@.len() - i,
        {
            if str_eq(self.entries[i].0, key) {
                return Some(i);
            }
            i = i + 1;
        }
        None
    }

    /// The value held for a key.
    pub fn get(&self, key: &str) -> (r: Option<&T>)
        ensures
            match r {
                Some(v) => lookup(self@, key@) == Some(*v),
                None => lookup(self@, key@) is None,
            },
    {
        proof {
            use_type_invariant(self);
        }
        match self.position(key) {
            Some(i) => {
                proof {
                    lemma_entry_in_map(self.entry_seq(), i as int);
                }
                Some(&self.entries[i].1)
            },
            None => None,
        }
    }

    /// Whether a value is held for a key.
    pub fn contains_key(&self, key: &str) -> (r: bool)
        ensures
            r == self@.contains_key(key@),
    {
        self.get(key).is_some()
    }

    /// Hold a value for a key. Gives back the value that it replaces.
    pub fn insert(&mut self, key: &'static str, value: T) -> (r: Option<T>)
        ensures
            final(self)@ == old(self)@.insert(key@, value),
            r == lookup(old(self)@, key@),
    {
        proof {
            use_type_invariant(&*self);
        }
        let ghost before = self.entry_seq();
        match self.position(key) {
            Some(i) => {
                let mut entries: Vec<(&'static str, T)> = Vec::new();
                std::mem::swap(&mut entries, &mut self.entries);
                let mut slot: (&'static str, T) = (key, value);
                std::mem::swap(&mut slot, &mut entries[i]);
                proof {
                    lemma_update_entry(before, i as int, value);
                    lemma_entry_in_map(before, i as int);
                    let after = Seq::new(entries@.len(), |j: int| (entries@[j].0@, entries@[j].1));
                    assert(after =~= before.update(i as int, (before[i as int].0, value)));
                }
                self.entries = entries;
                Some(slot.1)
            },
            None => {
                let mut entries: Vec<(&'static str, T)> = Vec::new();
                std::mem::swap(&mut entries, &mut self.entries);
                entries.push((key, value));
                proof {
                    lemma_push_entry(before, key@, value);
                    let after = Seq::new(entries@.len(), |j: int| (entries@[j].0@, entries@[j].1));
                    assert(after =~= before.push((key@, value)));
                }
                self.entries = entries;
                None
            },
        }
    }

    /// Hold a value for a key that has none yet.
    pub fn insert_if_absent(&mut self, key: &'static str, value: T)
        ensures
            final(self)@ == (if old(self)@.contains_key(key@) {
                old(self)@
            } else {
                old(self)@.insert(key@, value)
            }),
    {
        if !self.contains_key(key) {
            let _ = self.insert(key, value);
        }
    }

    /// Give up the value held for a key.
    pub fn remove(&mut self, key: &str) -> (r: Option<T>)
        ensures
            final(self)@ == old(self)@.remove(key@),
            r == lookup(old(self)@, key@),
    {
        proof {
            use_type_invariant(&*self);
        }
        let ghost before = self.entry_seq();
        match self.position(key) {
            Some(i) => {
                let mut entries: Vec<(&'static str, T)> = Vec::new();
                std::mem::swap(&mut entries, &mut self.entries);
                let slot = entries.remove(i);
                proof {
                    lemma_remove_entry(before, i as int);
                    lemma_entry_in_map(before, i as int);
                    let after = Seq::new(entries@.len(), |j: int| (entries@[j].0@, entries@[j].1));
                    assert(after =~= before.remove(i as int));
                }
                self.entries = entries;
                Some(slot.1)
            },
            None => {
                assert(old(self)@.remove(key@) =~= old(self)@);
                None
            },
        }
    }
}

impl<T> KeyMap<T> {
    /// Take over every entry of another map; its values replace those held for
    /// the same keys.
    pub fn absorb(&mut self, other: KeyMap<T>)
        ensures
            final(self)@ == old(self)@.union_prefer_right(other@),
    {
        proof {
            use_type_invariant(&other);
        }
        let ghost all = other.entry_seq();
        let ghost goal = old(self)@.union_prefer_right(other@);
        let mut rest: Vec<(&'static str, T)> = other.entries;
        assert(all.take(all.len() as int) =~= all);
        while rest.len() > 0
            invariant
                rest@.len() <= all.len(),
                distinct_keys(all),
                forall|j: int|
                    0 <= j < rest@.len() ==> (#[trigger] rest@[j]).0@ == all[j].0 && rest@[j].1
                        == all[j].1,
                self@.union_prefer_right(entries_map(all.take(rest@.len() as int))) == goal,
            decreases rest@.len(),
        {
            let ghost n = rest@.len() as int;
            let ghost before = self@;
            match rest.pop() {
                Some((key, value)) => {
                    let _ = self.insert(key, value);
                    proof {
                        let left = all.take(n - 1);
                        assert(all.take(n) =~= left.push((key@, value)));
                        assert(!has_key(left, key@)) by {
                            if has_key(left, key@) {
                                let p = key_position(left, key@);
                                assert(left[p] == all[p]);
                                assert(all[p].0 != all[n - 1].0);
                            }
                        }
                        assert(distinct_keys(left)) by {
                            assert forall|i: int, j: int|
                                #![trigger left[i], left[j]]
                                0 <= i < j < left.len() implies left[i].0 != left[j].0 by {
                                assert(left[i] == all[i] && left[j] == all[j]);
                            }
                        }
                        lemma_push_entry(left, key@, value);
                        let rest_map = entries_map(left);
                        assert(before.insert(key@, value).union_prefer_right(rest_map)
                            =~= before.union_prefer_right(rest_map.insert(key@, value)));
                    }
                },
                None => {},
            }
        }
        proof {
            assert(all.take(0) =~= Seq::<(Seq<char>, T)>::empty());
            assert(self@.union_prefer_right(entries_map(all.take(0))) =~= self@);
        }
    }
}

impl<V> KeyMap<Arc<V>> {
    /// Share the values of another map under the keys that this one does not
    /// hold yet.
    pub fn fill_from(&mut self, other: &KeyMap<Arc<V>>)
        ensures
            final(self)@ == other@.union_prefer_right(old(self)@),
    {
        proof {
            use_type_invariant(other);
        }
        let ghost all = other.entry_seq();
        let mut i: usize = 0;
        proof {
            assert(all.take(0) =~= Seq::<(Seq<char>, Arc<V>)>::empty());
            assert(entries_map(all.take(0)).union_prefer_right(self@) =~= self@);
        }
        while i < other.entries.len()
            invariant
                i <= other.entries@.len(),
                all == other.entry_seq(),
                distinct_keys(all),
                self@ == entries_map(all.take(i as int)).union_prefer_right(old(self)@),
            decreases other.entries@.len() - i,
        {
            let ghost before = self@;
            let key = other.entries[i].0;
            self.insert_if_absent(key, Arc::clone(&other.entries[i].1));
            proof {
                let done = all.take(i as int);
                let value = all[i as int].1;
                assert(all.take(i + 1) =~= done.push((key@, value)));
                assert(!has_key(done, key@)) by {
                    if has_key(done, key@) {
                        let p = key_position(done, key@);
                        assert(done[p] == all[p]);
                        assert(all[p].0 != all[i as int].0);
                    }
                }
                assert(distinct_keys(done)) by {
                    assert forall|a: int, b: int|
                        #![trigger done[a], done[b]]
                        0 <= a < b < done.len() implies done[a].0 != done[b].0 by {
                        assert(done[a] == all[a] && done[b] == all[b]);
                    }
                }
                lemma_push_entry(done, key@, value);
                assert(self@ =~= entries_map(all.take(i + 1)).union_prefer_right(old(self)@));
            }
            i = i + 1;
        }
        assert(all.take(i as int) =~= all);
    }

    /// A second map that shares the values of this one.
    pub fn share(&self) -> (r: Self)
        ensures
            r@ == self@,
            r.entry_seq() == self.entry_seq(),
    {
        proof {
            use_type_invariant(self);
        }
        let mut entries: Vec<(&'static str, Arc<V>)> = Vec::new();
        let mut i: usize = 0;
        while i < self.entries.len()
            invariant
                i <= self.entries@.len(),
                entries@ =~= self.entries@.take(i as int),
            decreases self.entries@.len() - i,
        {
            entries.push((self.entries[i].0, Arc::clone(&self.entries[i].1)));
            i = i + 1;
        }
        assert(entries@ =~= self.entries@);
        KeyMap { entries }
    }
}

} // verus!

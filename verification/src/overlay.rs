//! The in-memory overlay: inserts that have reached the log but not the tree.
//!
//! The overlay maps each key to the set of values inserted under it. It only
//! grows: nothing evicts from it, and the log is what can rebuild it.

use vstd::prelude::*;
use std::collections::{BTreeMap, BTreeSet};
use crate::types::{totally_ordered, KeyType, ValueType};

verus! {

broadcast use vstd::std_specs::btree::group_btree_axioms;

/// The values held under `key`, the empty set where there are none.
pub open spec fn values_of<K, V>(m: Map<K, Set<V>>, key: K) -> Set<V> {
    if m.contains_key(key) {
        m[key]
    } else {
        Set::empty()
    }
}

/// The map after `value` has been added to the values of `key`.
pub open spec fn insert_pair<K, V>(m: Map<K, Set<V>>, key: K, value: V) -> Map<K, Set<V>> {
    m.insert(key, values_of(m, key).insert(value))
}

/// The map after the pairs of `records` have been added, first to last.
pub open spec fn insert_all<K, V>(m: Map<K, Set<V>>, records: Seq<(K, V)>) -> Map<K, Set<V>>
    decreases records.len(),
{
    if records.len() == 0 {
        m
    } else {
        let last = records.last();
        insert_pair(insert_all(m, records.drop_last()), last.0, last.1)
    }
}

/// An ordered map from keys to ordered, duplicate-free sets of values.
pub struct Overlay<K: KeyType, V: ValueType> {
    map: BTreeMap<K, BTreeSet<V>>,
}

impl<K: KeyType, V: ValueType> View for Overlay<K, V> {
    type V = Map<K, Set<V>>;

    closed spec fn view(&self) -> Map<K, Set<V>> {
        self.map@.map_values(|held: BTreeSet<V>| held@)
    }
}

impl<K: KeyType, V: ValueType> Overlay<K, V> {
    /// An overlay without keys.
    pub fn new() -> (overlay: Self)
        ensures
            overlay@ == Map::<K, Set<V>>::empty(),
    {
        let overlay = Overlay { map: BTreeMap::new() };
        assert(overlay@ =~= Map::<K, Set<V>>::empty());
        overlay
    }

    /// Adds `value` to the values of `key`. A pair that is already there
    /// changes nothing.
    pub fn insert(&mut self, key: K, value: V)
        ensures
            totally_ordered::<K>() && totally_ordered::<V>() ==> final(self)@ == insert_pair(
                old(self)@,
                key,
                value,
            ),
    {
        let mut held = match self.map.remove(&key) {
            Some(held) => held,
            None => BTreeSet::new(),
        };
        held.insert(value);
        self.map.insert(key, held);
        proof {
            if totally_ordered::<K>() && totally_ordered::<V>() {
                assert(self@ =~= insert_pair(old(self)@, key, value));
            }
        }
    }

    /// Tells whether `value` is among the values of `key`.
    pub fn contains(&self, key: &K, value: &V) -> (found: bool)
        ensures
            totally_ordered::<K>() && totally_ordered::<V>() ==> found == values_of(
                self@,
                *key,
            ).contains(*value),
    {
        match self.map.get(key) {
            Some(held) => held.contains(value),
            None => false,
        }
    }

    /// The number of values held under `key`.
    pub fn count(&self, key: &K) -> (n: usize)
        ensures
            totally_ordered::<K>() && totally_ordered::<V>() ==> n == values_of(self@, *key).len(),
    {
        match self.map.get(key) {
            Some(held) => held.len(),
            None => 0,
        }
    }

    /// The number of keys.
    pub fn len(&self) -> (n: usize)
        ensures
            totally_ordered::<K>() ==> n == self@.dom().len(),
    {
        proof {
            assert(self@.dom() =~= self.map@.dom());
        }
        self.map.len()
    }

    /// Tells whether the overlay has no keys.
    pub fn is_empty(&self) -> (empty: bool)
        ensures
            empty == (self@ == Map::<K, Set<V>>::empty()),
    {
        proof {
            assert(self@.dom() =~= self.map@.dom());
            if self.map@.is_empty() {
                assert(self@ =~= Map::<K, Set<V>>::empty());
            }
        }
        self.map.is_empty()
    }
}

/// Two values inserted under one key are both kept: the second does not
/// replace the first.
pub proof fn lemma_insert_accumulates<K, V>(m: Map<K, Set<V>>, key: K, first: V, second: V)
    ensures
        values_of(insert_pair(insert_pair(m, key, first), key, second), key) == values_of(
            m,
            key,
        ).insert(first).insert(second),
        values_of(insert_pair(insert_pair(m, key, first), key, second), key).contains(first),
        values_of(insert_pair(insert_pair(m, key, first), key, second), key).contains(second),
{
}

/// Inserting a pair a second time changes nothing.
pub proof fn lemma_insert_idempotent<K, V>(m: Map<K, Set<V>>, key: K, value: V)
    ensures
        insert_pair(insert_pair(m, key, value), key, value) == insert_pair(m, key, value),
{
    let once = insert_pair(m, key, value);
    assert(values_of(once, key).insert(value) =~= values_of(once, key));
    assert(insert_pair(once, key, value) =~= once);
}

/// Inserting a pair touches no other key.
pub proof fn lemma_insert_keeps_others<K, V>(m: Map<K, Set<V>>, key: K, value: V, other: K)
    requires
        other != key,
    ensures
        values_of(insert_pair(m, key, value), other) == values_of(m, other),
        insert_pair(m, key, value).contains_key(other) == m.contains_key(other),
{
}

/// Inserting one more pair after a sequence of pairs is inserting the longer
/// sequence: an overlay that was filled by inserts is the overlay that a
/// replay of the same pairs builds.
pub proof fn lemma_insert_all_push<K, V>(m: Map<K, Set<V>>, pairs: Seq<(K, V)>, key: K, value: V)
    ensures
        insert_all(m, pairs.push((key, value))) == insert_pair(insert_all(m, pairs), key, value),
{
    assert(pairs.push((key, value)).drop_last() =~= pairs);
}

/// An overlay built from a sequence of pairs holds those pairs and nothing
/// else: a value is found under a key exactly if the pair was inserted, and a
/// key is present exactly if some pair has it.
pub proof fn lemma_insert_all_holds<K, V>(pairs: Seq<(K, V)>, key: K, value: V)
    ensures
        values_of(insert_all(Map::empty(), pairs), key).contains(value) <==> pairs.contains(
            (key, value),
        ),
        insert_all(Map::<K, Set<V>>::empty(), pairs).contains_key(key) <==> exists|i: int|
            0 <= i < pairs.len() && (#[trigger] pairs[i]).0 == key,
    decreases pairs.len(),
{
    let built = insert_all(Map::<K, Set<V>>::empty(), pairs);
    if pairs.len() > 0 {
        let front = pairs.drop_last();
        let last = pairs.last();
        lemma_insert_all_holds(front, key, value);
        let before = insert_all(Map::<K, Set<V>>::empty(), front);
        if front.contains((key, value)) {
            let i = choose|i: int| 0 <= i < front.len() && front[i] == (key, value);
            assert(pairs[i] == (key, value));
        }
        if last == (key, value) {
            assert(pairs[pairs.len() - 1] == (key, value));
        }
        if pairs.contains((key, value)) {
            let i = choose|i: int| 0 <= i < pairs.len() && pairs[i] == (key, value);
            if i < front.len() {
                assert(front[i] == (key, value));
            }
        }
        if before.contains_key(key) {
            let i = choose|i: int| 0 <= i < front.len() && (#[trigger] front[i]).0 == key;
            assert(pairs[i].0 == key);
        }
        if last.0 == key {
            assert(pairs[pairs.len() - 1].0 == key);
        }
        if exists|i: int| 0 <= i < pairs.len() && (#[trigger] pairs[i]).0 == key {
            let i = choose|i: int| 0 <= i < pairs.len() && (#[trigger] pairs[i]).0 == key;
            if i < front.len() {
                assert(front[i].0 == key);
            }
        }
    }
}

} // verus!

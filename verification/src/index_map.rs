//! A map from dense integer keys to values, kept in a vector of optional slots.

use vstd::prelude::*;

verus! {

/// A map keyed by small integers. Slot `k` of the vector holds the value of
/// key `k`, if the map has one.
#[derive(Debug)]
pub struct IndexMap<V> {
    values: Vec<Option<V>>,
}

impl<V> View for IndexMap<V> {
    type V = Map<usize, V>;

    closed spec fn view(&self) -> Map<usize, V> {
        Map::new(
            |k: usize| k < self.values@.len() && self.values@[k as int] is Some,
            |k: usize| self.values@[k as int]->0,
        )
    }
}

impl<V> IndexMap<V> {
    /// One more than the largest key that may be present.
    pub closed spec fn spec_bound(&self) -> nat {
        self.values@.len()
    }

    /// Every key of the map is below the bound.
    pub proof fn lemma_keys_below_bound(&self)
        ensures
            forall|k: usize| #[trigger] self@.contains_key(k) ==> k < self.spec_bound(),
            self.spec_bound() <= usize::MAX,
    {
        assert(self.values@.len() == self.values.len());
    }

    /// The empty map.
    pub fn new() -> (map: Self)
        ensures
            map@ == Map::<usize, V>::empty(),
            map.spec_bound() == 0,
    {
        let map = IndexMap { values: Vec::new() };
        assert(map@ =~= Map::<usize, V>::empty());
        map
    }

    /// One more than the largest key that may be present.
    pub fn bound(&self) -> (bound: usize)
        ensures
            bound == self.spec_bound(),
    {
        self.values.len()
    }

    /// Whether the map has a value for `key`.
    pub fn contains_key(&self, key: usize) -> (found: bool)
        ensures
            found == self@.contains_key(key),
    {
        key < self.values.len() && self.values[key].is_some()
    }

    /// The value of `key`, if the map has one.
    pub fn get(&self, key: usize) -> (value: Option<&V>)
        ensures
            value == (if self@.contains_key(key) {
                Some(&self@[key])
            } else {
                None
            }),
    {
        if key < self.values.len() {
            self.values[key].as_ref()
        } else {
            None
        }
    }

    /// Sets the value of `key`, replacing the one it had.
    pub fn insert(&mut self, key: usize, value: V)
        requires
            key < usize::MAX,
        ensures
            final(self)@ == old(self)@.insert(key, value),
            final(self).spec_bound() == if key < old(self).spec_bound() {
                old(self).spec_bound()
            } else {
                (key + 1) as nat
            },
    {
        while self.values.len() <= key
            invariant
                key < usize::MAX,
                self.values@.len() >= old(self).values@.len(),
                self.values@.len() <= key + 1 || self.values@.len() == old(self).values@.len(),
                self@ == old(self)@,
            decreases key + 1 - self.values@.len(),
        {
            let ghost before = self@;
            self.values.push(None);
            assert(self@ =~= before);
        }
        self.values[key] = Some(value);
        assert(self@ =~= old(self)@.insert(key, value));
    }

    /// Takes the value of `key` out of the map, if the map has one.
    pub fn remove(&mut self, key: usize) -> (value: Option<V>)
        ensures
            final(self)@ == old(self)@.remove(key),
            final(self).spec_bound() == old(self).spec_bound(),
            value == (if old(self)@.contains_key(key) {
                Some(old(self)@[key])
            } else {
                None
            }),
    {
        if key < self.values.len() {
            let mut slot: Option<V> = None;
            std::mem::swap(&mut self.values[key], &mut slot);
            assert(self@ =~= old(self)@.remove(key));
            slot
        } else {
            assert(self@ =~= old(self)@.remove(key));
            None
        }
    }
}

} // verus!

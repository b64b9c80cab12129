//! A finite set of ids, held in a `HashSet`.
use vstd::prelude::*;
use std::collections::HashSet;

verus! {

broadcast use vstd::std_specs::hash::group_hash_axioms;

/// A finite set of 128-bit ids.
#[derive(Debug)]
pub struct IdSet {
    ids: HashSet<u128>,
}

impl IdSet {
    /// The ids in the set.
    pub closed spec fn view(&self) -> Set<u128> {
        self.ids@
    }

    /// The empty set.
    pub fn new() -> (r: Self)
        ensures
            r@ == Set::<u128>::empty(),
    {
        IdSet { ids: HashSet::new() }
    }

    /// How many ids the set holds.
    pub fn len(&self) -> (n: usize)
        ensures
            n == self@.len(),
    {
        self.ids.len()
    }

    /// Whether an id is in the set.
    pub fn contains(&self, id: u128) -> (b: bool)
        ensures
            b == self@.contains(id),
    {
        self.ids.contains(&id)
    }

    /// Adds an id; the answer says whether it was new.
    pub fn insert(&mut self, id: u128) -> (added: bool)
        ensures
            final(self)@ == old(self)@.insert(id),
            added == !old(self)@.contains(id),
    {
        self.ids.insert(id)
    }

    /// Removes an id, if it is in the set; the answer says whether it was there.
    pub fn remove(&mut self, id: u128) -> (removed: bool)
        ensures
            final(self)@ == old(self)@.remove(id),
            removed == old(self)@.contains(id),
    {
        self.ids.remove(&id)
    }

    /// Removes every id.
    pub fn clear(&mut self)
        ensures
            final(self)@ == Set::<u128>::empty(),
    {
        self.ids.clear();
    }
}

} // verus!

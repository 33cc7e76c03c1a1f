//! Per-type storage: a [`Pool`] maps generational slot keys to values of one
//! stored type.
//!
//! Each index holds at most one entry, tagged with the generation of the key
//! it was written under. A key reads an entry back only if the generations
//! match, so an entry left behind by an earlier occupant of the index is
//! unreachable through any later key.

use vstd::prelude::*;
use vstd::pervasive::VecAdditionalExecFns;
use crate::arena::SlotKey;

verus! {

/// One stored value, tagged with the generation of the key that wrote it.
pub struct PoolEntry<T> {
    pub generation: u64,
    pub value: T,
}

/// Storage for values of a single type, keyed by [`SlotKey`].
pub struct Pool<T> {
    pub entries: Vec<Option<PoolEntry<T>>>,
}

impl<T> Pool<T> {
    /// The value stored under `k`, if any: the entry at `k`'s index, provided
    /// it was written under `k`'s generation.
    pub open spec fn spec_get(self, k: SlotKey) -> Option<T> {
        if k.index < self.entries@.len() {
            match self.entries@[k.index as int] {
                Some(e) => if e.generation == k.generation {
                    Some(e.value)
                } else {
                    None
                },
                None => None,
            }
        } else {
            None
        }
    }

    /// An empty pool: no key reads anything back.
    pub fn new() -> (p: Pool<T>)
        ensures
            forall|k: SlotKey| p.spec_get(k) == None::<T>,
    {
        Pool { entries: Vec::new() }
    }

    /// Writes `value` under `k`, overwriting whatever the index held. Keys at
    /// other indices are untouched; keys at the same index with another
    /// generation no longer read anything.
    pub fn set(&mut self, k: SlotKey, value: T)
        ensures
            final(self).spec_get(k) == Some(value),
            forall|k2: SlotKey|
                k2.index != k.index ==> final(self).spec_get(k2) == old(self).spec_get(k2),
            forall|k2: SlotKey|
                k2.index == k.index && k2 != k ==> final(self).spec_get(k2) == None::<T>,
    {
        while self.entries.len() <= k.index
            invariant
                forall|k2: SlotKey| self.spec_get(k2) == old(self).spec_get(k2),
                old(self).entries@.len() <= self.entries@.len(),
            decreases k.index + 1 - self.entries@.len(),
        {
            self.entries.push(None);
        }
        self.entries.set(k.index, Some(PoolEntry { generation: k.generation, value }));
    }

    /// Reads the value stored under `k`, without side effects.
    pub fn get(&self, k: SlotKey) -> (r: Option<&T>)
        ensures
            match r {
                Some(v) => self.spec_get(k) == Some(*v),
                None => self.spec_get(k) == None::<T>,
            },
    {
        if k.index < self.entries.len() {
            match &self.entries[k.index] {
                Some(e) => {
                    if e.generation == k.generation {
                        Some(&e.value)
                    } else {
                        None
                    }
                },
                None => None,
            }
        } else {
            None
        }
    }

    /// Removes and returns the value stored under `k`. An entry at the same
    /// index written under another generation is left in place.
    pub fn take(&mut self, k: SlotKey) -> (r: Option<T>)
        ensures
            r == old(self).spec_get(k),
            final(self).spec_get(k) == None::<T>,
            forall|k2: SlotKey| k2 != k ==> final(self).spec_get(k2) == old(self).spec_get(k2),
    {
        if k.index < self.entries.len() {
            let mut taken: Option<PoolEntry<T>> = None;
            self.entries.set_and_swap(k.index, &mut taken);
            match taken {
                Some(e) => {
                    if e.generation == k.generation {
                        Some(e.value)
                    } else {
                        self.entries.set(k.index, Some(e));
                        None
                    }
                },
                None => None,
            }
        } else {
            None
        }
    }

    /// Whether `k` currently reads a value.
    pub fn contains(&self, k: SlotKey) -> (r: bool)
        ensures
            r == self.spec_get(k).is_some(),
    {
        match self.get(k) {
            Some(_) => true,
            None => false,
        }
    }
}

} // verus!

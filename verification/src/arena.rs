//! The generational slot arena: one slot per live identity.
//!
//! Every identity that currently holds state owns exactly one slot, addressed
//! by a [`SlotKey`] carrying the slot's index and the generation the slot had
//! when the key was handed out. Deallocating a slot bumps its generation, so
//! a key minted for an earlier occupant can never resolve to a later one.

use vstd::prelude::*;
use vstd::pervasive::VecAdditionalExecFns;

verus! {

/// Identity token for a position in a repeatedly traversed call tree.
///
/// The arena never interprets the token: an external provider must supply the
/// same value for the same position on every pass, and distinct values for
/// distinct positions.
#[derive(Clone, Copy, PartialEq, Eq, Hash, Debug, Structural)]
pub struct TopoId(pub u64);

/// Generational key addressing one identity's slot, in the arena and in every
/// type's pool alike.
#[derive(Clone, Copy, PartialEq, Eq, Hash, Debug, Structural)]
pub struct SlotKey {
    pub index: usize,
    pub generation: u64,
}

/// One slot: the current generation of its index, and the identity occupying
/// it, if any.
#[derive(Clone, Copy, Debug)]
pub struct Slot {
    pub generation: u64,
    pub occupant: Option<TopoId>,
}

/// Allocates and retires one generational [`SlotKey`] per identity.
pub struct Arena {
    pub slots: Vec<Slot>,
}

impl Arena {
    /// Slot `i` holds identity `id`.
    pub open spec fn occupied_by(self, i: int, id: TopoId) -> bool {
        0 <= i < self.slots@.len() && self.slots@[i].occupant == Some(id)
    }

    /// No identity occupies two slots, and an occupied slot's generation can
    /// still be bumped when the slot is freed. A free slot whose generation
    /// has reached `u64::MAX` is permanently retired and is never reused.
    pub open spec fn wf(self) -> bool {
        &&& forall|i: int, j: int, id: TopoId|
            self.occupied_by(i, id) && self.occupied_by(j, id) ==> i == j
        &&& forall|i: int|
            0 <= i < self.slots@.len() && self.slots@[i].occupant.is_some()
                ==> self.slots@[i].generation < u64::MAX
    }

    /// Some slot currently holds `id`.
    pub open spec fn has_id(self, id: TopoId) -> bool {
        exists|i: int| self.occupied_by(i, id)
    }

    /// `k` is exactly the key under which `id` is currently allocated.
    pub open spec fn id_has_key(self, id: TopoId, k: SlotKey) -> bool {
        &&& self.occupied_by(k.index as int, id)
        &&& self.slots@[k.index as int].generation == k.generation
    }

    /// The key under which `id` is currently allocated; meaningful only when
    /// `has_id(id)` holds.
    pub open spec fn key_of(self, id: TopoId) -> SlotKey {
        choose|k: SlotKey| self.id_has_key(id, k)
    }

    /// What a bare key resolves to: the occupant of its slot, provided the
    /// slot still carries the generation the key was minted with.
    pub open spec fn id_of_key(self, k: SlotKey) -> Option<TopoId> {
        if k.index < self.slots@.len() && self.slots@[k.index as int].generation == k.generation {
            self.slots@[k.index as int].occupant
        } else {
            None
        }
    }

    /// `k` is a key the arena has already handed out: either the current key
    /// of a live slot, or one from an earlier generation of an existing slot.
    /// Every entry a pool ever holds sits at such a key.
    pub open spec fn bounded_key(self, k: SlotKey) -> bool {
        &&& k.index < self.slots@.len()
        &&& {
            ||| k.generation < self.slots@[k.index as int].generation
            ||| (k.generation == self.slots@[k.index as int].generation
                && self.slots@[k.index as int].occupant.is_some())
        }
    }

    /// `k` belongs to a past generation of its slot: it can never resolve to
    /// an occupant again.
    pub open spec fn retired(self, k: SlotKey) -> bool {
        k.index < self.slots@.len() && k.generation < self.slots@[k.index as int].generation
    }

    /// An identity is allocated under at most one key.
    pub proof fn lemma_key_unique(self, id: TopoId, k1: SlotKey, k2: SlotKey)
        requires
            self.wf(),
            self.id_has_key(id, k1),
            self.id_has_key(id, k2),
        ensures
            k1 == k2,
    {
        assert(k1.index as int == k2.index as int);
    }

    /// `key_of` is the one key `id_has_key` admits.
    pub proof fn lemma_key_of(self, id: TopoId, k: SlotKey)
        requires
            self.wf(),
            self.id_has_key(id, k),
        ensures
            self.key_of(id) == k,
            self.has_id(id),
    {
        let kc = choose|kk: SlotKey| self.id_has_key(id, kk);
        self.lemma_key_unique(id, kc, k);
    }

    /// A retired key never resolves to an identity.
    pub proof fn lemma_retired_resolves_to_none(self, k: SlotKey)
        requires
            self.retired(k),
        ensures
            self.id_of_key(k) == None::<TopoId>,
    {
    }

    /// A live identity is allocated under its `key_of`.
    pub proof fn lemma_has_key(self, id: TopoId)
        requires
            self.wf(),
            self.has_id(id),
        ensures
            self.id_has_key(id, self.key_of(id)),
    {
        assert(self.slots.len() == self.slots@.len());
        let i = choose|i: int| self.occupied_by(i, id);
        let k = SlotKey { index: i as usize, generation: self.slots@[i].generation };
        self.lemma_key_of(id, k);
    }

    pub fn new() -> (a: Arena)
        ensures
            a.wf(),
            forall|id: TopoId| !a.has_id(id),
            a.slots@.len() == 0,
    {
        Arena { slots: Vec::new() }
    }

    /// Finds the key currently allocated to `id`, without side effects.
    pub fn lookup(&self, id: TopoId) -> (r: Option<SlotKey>)
        requires
            self.wf(),
        ensures
            match r {
                Some(k) => self.id_has_key(id, k) && k == self.key_of(id) && self.has_id(id),
                None => !self.has_id(id),
            },
    {
        let mut i: usize = 0;
        while i < self.slots.len()
            invariant
                self.wf(),
                i <= self.slots@.len(),
                forall|j: int| 0 <= j < i ==> !self.occupied_by(j, id),
            decreases self.slots@.len() - i,
        {
            match self.slots[i].occupant {
                Some(o) => {
                    if o == id {
                        let k = SlotKey { index: i, generation: self.slots[i].generation };
                        proof {
                            self.lemma_key_of(id, k);
                        }
                        return Some(k);
                    }
                },
                None => {},
            }
            i = i + 1;
        }
        None
    }

    /// Allocates a slot for `id`, or returns its existing key unchanged:
    /// allocation is idempotent. A fresh key is never one that any pool bound
    /// by the old arena can hold an entry at.
    pub fn allocate(&mut self, id: TopoId) -> (k: SlotKey)
        requires
            old(self).wf(),
        ensures
            final(self).wf(),
            final(self).id_has_key(id, k),
            final(self).has_id(id),
            k == final(self).key_of(id),
            old(self).has_id(id) ==> *final(self) == *old(self) && k == old(self).key_of(id),
            !old(self).has_id(id) ==> !old(self).bounded_key(k),
            final(self).bounded_key(k),
            forall|id2: TopoId, k2: SlotKey|
                id2 != id ==> (old(self).id_has_key(id2, k2) <==> final(self).id_has_key(id2, k2)),
            forall|id2: TopoId| id2 != id ==> (old(self).has_id(id2) <==> final(self).has_id(id2)),
            forall|k2: SlotKey| old(self).bounded_key(k2) ==> final(self).bounded_key(k2),
            forall|k2: SlotKey| old(self).retired(k2) ==> final(self).retired(k2),
    {
        match self.lookup(id) {
            Some(k) => k,
            None => {
                let mut i: usize = 0;
                while i < self.slots.len()
                    invariant
                        *self == *old(self),
                        self.wf(),
                        i <= self.slots@.len(),
                        !self.has_id(id),
                        forall|j: int|
                            0 <= j < i
                                ==> (self.slots@[j].occupant.is_some()
                                || self.slots@[j].generation == u64::MAX),
                    decreases self.slots@.len() - i,
                {
                    let free_here = match self.slots[i].occupant {
                        Some(_) => false,
                        None => self.slots[i].generation < u64::MAX,
                    };
                    if free_here {
                        let g = self.slots[i].generation;
                        let k = SlotKey { index: i, generation: g };
                        let ghost pre = *self;
                        self.slots.set(i, Slot { generation: g, occupant: Some(id) });
                        proof {
                            assert forall|a: int, b: int, id2: TopoId|
                                self.occupied_by(a, id2) && self.occupied_by(b, id2)
                                implies a == b by {
                                if a == i as int && b != i as int {
                                    assert(pre.occupied_by(b, id));
                                } else if b == i as int && a != i as int {
                                    assert(pre.occupied_by(a, id));
                                } else if a != i as int && b != i as int {
                                    assert(pre.occupied_by(a, id2) && pre.occupied_by(b, id2));
                                }
                            }
                            assert(self.wf());
                            assert forall|id2: TopoId, k2: SlotKey| id2 != id implies
                                (pre.id_has_key(id2, k2) <==> self.id_has_key(id2, k2)) by {
                            }
                            assert forall|id2: TopoId| id2 != id implies
                                (pre.has_id(id2) <==> self.has_id(id2)) by {
                                if pre.has_id(id2) {
                                    let j = choose|j: int| pre.occupied_by(j, id2);
                                    assert(self.occupied_by(j, id2));
                                }
                                if self.has_id(id2) {
                                    let j = choose|j: int| self.occupied_by(j, id2);
                                    assert(pre.occupied_by(j, id2));
                                }
                            }
                            self.lemma_key_of(id, k);
                        }
                        return k;
                    }
                    i = i + 1;
                }
                let k = SlotKey { index: self.slots.len(), generation: 0 };
                let ghost pre = *self;
                self.slots.push(Slot { generation: 0, occupant: Some(id) });
                proof {
                    let ghost n = pre.slots@.len() as int;
                    assert forall|a: int, b: int, id2: TopoId|
                        self.occupied_by(a, id2) && self.occupied_by(b, id2)
                        implies a == b by {
                        if a == n && b != n {
                            assert(pre.occupied_by(b, id));
                        } else if b == n && a != n {
                            assert(pre.occupied_by(a, id));
                        } else if a != n && b != n {
                            assert(pre.occupied_by(a, id2) && pre.occupied_by(b, id2));
                        }
                    }
                    assert(self.wf());
                    assert forall|id2: TopoId, k2: SlotKey| id2 != id implies
                        (pre.id_has_key(id2, k2) <==> self.id_has_key(id2, k2)) by {
                    }
                    assert forall|id2: TopoId| id2 != id implies
                        (pre.has_id(id2) <==> self.has_id(id2)) by {
                        if pre.has_id(id2) {
                            let j = choose|j: int| pre.occupied_by(j, id2);
                            assert(self.occupied_by(j, id2));
                        }
                        if self.has_id(id2) {
                            let j = choose|j: int| self.occupied_by(j, id2);
                            assert(pre.occupied_by(j, id2));
                        }
                    }
                    self.lemma_key_of(id, k);
                }
                k
            },
        }
    }

    /// All identities currently holding a slot, each exactly once.
    pub fn live_ids(&self) -> (r: Vec<TopoId>)
        requires
            self.wf(),
        ensures
            forall|id: TopoId| r@.contains(id) <==> self.has_id(id),
    {
        let mut found: Vec<TopoId> = Vec::new();
        let mut i: usize = 0;
        while i < self.slots.len()
            invariant
                self.wf(),
                i <= self.slots@.len(),
                forall|id: TopoId|
                    found@.contains(id) <==> (exists|j: int|
                        0 <= j < i && self.occupied_by(j, id)),
            decreases self.slots@.len() - i,
        {
            match self.slots[i].occupant {
                Some(o) => {
                    let ghost found_pre = found@;
                    found.push(o);
                    proof {
                        assert forall|id: TopoId|
                            found@.contains(id) <==> (exists|j: int|
                                0 <= j < i + 1 && self.occupied_by(j, id)) by {
                            if found@.contains(id) {
                                let j0 = choose|j0: int|
                                    0 <= j0 < found@.len() && found@[j0] == id;
                                if j0 < found_pre.len() {
                                    assert(found_pre.contains(id));
                                } else {
                                    assert(self.occupied_by(i as int, id));
                                }
                            }
                            if exists|j: int| 0 <= j < i + 1 && self.occupied_by(j, id) {
                                let j1 = choose|j: int|
                                    0 <= j < i + 1 && self.occupied_by(j, id);
                                if j1 < i {
                                    assert(found_pre.contains(id));
                                    let j0 = choose|j0: int|
                                        0 <= j0 < found_pre.len() && found_pre[j0] == id;
                                    assert(found@[j0] == id);
                                } else {
                                    assert(found@[found@.len() - 1] == id);
                                }
                            }
                        }
                    }
                },
                None => {},
            }
            i = i + 1;
        }
        found
    }

    /// Frees `id`'s slot, if it has one, bumping the slot's generation so the
    /// old key is permanently retired. Other identities are untouched.
    pub fn deallocate(&mut self, id: TopoId)
        requires
            old(self).wf(),
        ensures
            final(self).wf(),
            !final(self).has_id(id),
            !old(self).has_id(id) ==> *final(self) == *old(self),
            old(self).has_id(id) ==> final(self).retired(old(self).key_of(id)),
            forall|id2: TopoId, k2: SlotKey|
                id2 != id ==> (old(self).id_has_key(id2, k2) <==> final(self).id_has_key(id2, k2)),
            forall|id2: TopoId| id2 != id ==> (old(self).has_id(id2) <==> final(self).has_id(id2)),
            forall|k2: SlotKey| old(self).bounded_key(k2) ==> final(self).bounded_key(k2),
            forall|k2: SlotKey| old(self).retired(k2) ==> final(self).retired(k2),
    {
        let mut i: usize = 0;
        while i < self.slots.len()
            invariant
                *self == *old(self),
                self.wf(),
                i <= self.slots@.len(),
                forall|j: int| 0 <= j < i ==> !self.occupied_by(j, id),
            decreases self.slots@.len() - i,
        {
            let hit = match self.slots[i].occupant {
                Some(o) => o == id,
                None => false,
            };
            if hit {
                let g = self.slots[i].generation;
                let ghost pre = *self;
                let ghost kold = SlotKey { index: i, generation: g };
                self.slots.set(i, Slot { generation: g + 1, occupant: None });
                proof {
                    pre.lemma_key_of(id, kold);
                    assert forall|a: int, b: int, id2: TopoId|
                        self.occupied_by(a, id2) && self.occupied_by(b, id2)
                        implies a == b by {
                        assert(pre.occupied_by(a, id2) && pre.occupied_by(b, id2));
                    }
                    assert(self.wf());
                    assert forall|j: int| !self.occupied_by(j, id) by {
                        if self.occupied_by(j, id) {
                            assert(pre.occupied_by(j, id));
                            assert(pre.occupied_by(i as int, id));
                        }
                    }
                    assert forall|id2: TopoId, k2: SlotKey| id2 != id implies
                        (pre.id_has_key(id2, k2) <==> self.id_has_key(id2, k2)) by {
                    }
                    assert forall|id2: TopoId| id2 != id implies
                        (pre.has_id(id2) <==> self.has_id(id2)) by {
                        if pre.has_id(id2) {
                            let j = choose|j: int| pre.occupied_by(j, id2);
                            assert(self.occupied_by(j, id2));
                        }
                        if self.has_id(id2) {
                            let j = choose|j: int| self.occupied_by(j, id2);
                            assert(pre.occupied_by(j, id2));
                        }
                    }
                }
                return;
            }
            i = i + 1;
        }
    }
}

} // verus!

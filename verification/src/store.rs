//! The store: the slot arena, the type pool registry and the liveness
//! tracker, composed behind one CRUD contract.
//!
//! Values of type `T` for an identity live in a [`Pool<T>`] at the identity's
//! arena slot. The pool for an operation is either passed in explicitly —
//! those operations carry exact, value-level contracts — or looked up in the
//! type-indexed [`PoolRegistry`], whose contents are opaque to the verifier
//! (see [`crate::registry`]).
//!
//! Every operation that touches an identity also marks it seen, removing it
//! from the unseen set that drives the next sweep; see
//! [`crate::state_functions`] for the sweep itself.

use vstd::prelude::*;
use vstd::pervasive::cloned;
use vstd::pervasive::unreached;
use crate::arena::{Arena, SlotKey, TopoId};
use crate::pool::Pool;
use crate::registry::PoolRegistry;

verus! {

/// Identity-keyed heterogeneous storage with mark-and-sweep liveness.
pub struct Store {
    pub arena: Arena,
    pub unseen_ids: Vec<TopoId>,
    pub pools: PoolRegistry,
}

impl Store {
    pub open spec fn wf(self) -> bool {
        self.arena.wf()
    }

    /// `id` currently holds a slot.
    pub open spec fn live(self, id: TopoId) -> bool {
        self.arena.has_id(id)
    }

    /// The slot key of a live identity.
    pub open spec fn key_of(self, id: TopoId) -> SlotKey {
        self.arena.key_of(id)
    }

    /// `id` has not been touched since the last seed: it is a candidate for
    /// the next sweep.
    pub open spec fn unseen(self, id: TopoId) -> bool {
        self.unseen_ids@.contains(id)
    }

    /// The value `pool` currently stores for `id`: the entry at `id`'s slot,
    /// if `id` is live and such an entry exists.
    pub open spec fn state_of<T>(self, pool: Pool<T>, id: TopoId) -> Option<T> {
        if self.live(id) {
            pool.spec_get(self.key_of(id))
        } else {
            None
        }
    }

    /// Every entry of `pool` sits at a key this store's arena has handed out.
    /// Holds for any pool that is written only through store operations on
    /// this store, and makes a freshly allocated slot invisible in the pool.
    pub open spec fn pool_bounded<T>(self, pool: Pool<T>) -> bool {
        forall|k: SlotKey| pool.spec_get(k).is_some() ==> self.arena.bounded_key(k)
    }
}

/// `post` is `pre` with `id` marked seen: the arena is untouched and `id` is
/// no longer a sweep candidate.
pub open spec fn touched(pre: Store, post: Store, id: TopoId) -> bool {
    &&& post.arena == pre.arena
    &&& !post.unseen(id)
    &&& forall|id2: TopoId| id2 != id ==> (post.unseen(id2) <==> pre.unseen(id2))
}

/// Effect of `set_state::<T>(id, value)`: `id` is live and marked seen, the
/// pool stores exactly `value` for it, and nothing else — no other identity's
/// state, liveness, key or sweep candidacy — changes. Keys already handed out
/// stay handed out and retired keys stay retired.
pub open spec fn set_post<T>(
    pre: Store,
    pre_pool: Pool<T>,
    post: Store,
    post_pool: Pool<T>,
    id: TopoId,
    value: T,
) -> bool {
    &&& post.wf()
    &&& post.live(id)
    &&& post.state_of(post_pool, id) == Some(value)
    &&& forall|id2: TopoId|
        id2 != id ==> post.state_of(post_pool, id2) == pre.state_of(pre_pool, id2)
    &&& forall|id2: TopoId| post.live(id2) <==> (pre.live(id2) || id2 == id)
    &&& forall|id2: TopoId, k: SlotKey|
        id2 != id ==> (pre.arena.id_has_key(id2, k) <==> post.arena.id_has_key(id2, k))
    &&& pre.live(id) ==> post.arena == pre.arena
    &&& !pre.live(id) ==> !pre.arena.bounded_key(post.key_of(id))
    &&& forall|k: SlotKey| pre.arena.bounded_key(k) ==> post.arena.bounded_key(k)
    &&& forall|k: SlotKey| pre.arena.retired(k) ==> post.arena.retired(k)
    &&& !post.unseen(id)
    &&& forall|id2: TopoId| id2 != id ==> (post.unseen(id2) <==> pre.unseen(id2))
    &&& forall|k: SlotKey|
        k.index != post.key_of(id).index ==> post_pool.spec_get(k) == pre_pool.spec_get(k)
    &&& (pre.pool_bounded(pre_pool) ==> post.pool_bounded(post_pool))
}

/// Effect of `remove_state::<T>(id)`: only `id`'s entry in this one pool goes
/// away; the slot itself, the liveness tracker and every other identity's
/// state are untouched.
pub open spec fn remove_post<T>(
    pre: Store,
    pre_pool: Pool<T>,
    post: Store,
    post_pool: Pool<T>,
    id: TopoId,
    r: Option<T>,
) -> bool {
    &&& post.wf()
    &&& post.arena == pre.arena
    &&& post.unseen_ids == pre.unseen_ids
    &&& r == pre.state_of(pre_pool, id)
    &&& post.state_of(post_pool, id) == None::<T>
    &&& forall|id2: TopoId|
        id2 != id ==> post.state_of(post_pool, id2) == pre.state_of(pre_pool, id2)
    &&& !pre.live(id) ==> post_pool == pre_pool
    &&& forall|k: SlotKey|
        pre.live(id) && k != pre.key_of(id) ==> post_pool.spec_get(k) == pre_pool.spec_get(k)
    &&& (pre.pool_bounded(pre_pool) ==> post.pool_bounded(post_pool))
}

/// Effect of `update_state::<T>(id, f)`: `id`'s stored value is replaced by a
/// result of applying `f` to it; everything else is as for a `set_state` of a
/// live identity.
pub open spec fn update_post<T, F: FnOnce(T) -> T>(
    pre: Store,
    pre_pool: Pool<T>,
    post: Store,
    post_pool: Pool<T>,
    id: TopoId,
    f: F,
) -> bool {
    &&& post.wf()
    &&& touched(pre, post, id)
    &&& post.state_of(post_pool, id).is_some()
    &&& call_ensures(
        f,
        (pre.state_of(pre_pool, id).unwrap(),),
        post.state_of(post_pool, id).unwrap(),
    )
    &&& forall|id2: TopoId|
        id2 != id ==> post.state_of(post_pool, id2) == pre.state_of(pre_pool, id2)
    &&& forall|k: SlotKey|
        k.index != pre.key_of(id).index ==> post_pool.spec_get(k) == pre_pool.spec_get(k)
    &&& (pre.pool_bounded(pre_pool) ==> post.pool_bounded(post_pool))
}

impl Store {
    /// A store with no slots, no sweep candidates and no pools.
    pub fn new() -> (s: Store)
        ensures
            s.wf(),
            forall|id: TopoId| !s.live(id),
            forall|id: TopoId| !s.unseen(id),
            s.arena.slots@.len() == 0,
    {
        Store { arena: Arena::new(), unseen_ids: Vec::new(), pools: PoolRegistry::new() }
    }

    /// Marks `id` seen for the current sweep cycle, whether or not it holds a
    /// slot. Nothing else changes.
    pub fn mark_id_as_active(&mut self, id: TopoId)
        ensures
            final(self).arena == old(self).arena,
            final(self).pools == old(self).pools,
            !final(self).unseen(id),
            forall|id2: TopoId| id2 != id ==> (final(self).unseen(id2) <==> old(self).unseen(id2)),
    {
        let mut kept: Vec<TopoId> = Vec::new();
        let mut i: usize = 0;
        while i < self.unseen_ids.len()
            invariant
                *self == *old(self),
                i <= self.unseen_ids@.len(),
                !kept@.contains(id),
                forall|id2: TopoId|
                    id2 != id ==> (kept@.contains(id2) <==> (exists|j: int|
                        0 <= j < i && self.unseen_ids@[j] == id2)),
            decreases self.unseen_ids@.len() - i,
        {
            let x = self.unseen_ids[i];
            if x != id {
                let ghost kept_pre = kept@;
                kept.push(x);
                proof {
                    assert(!kept@.contains(id)) by {
                        if kept@.contains(id) {
                            let j0 = choose|j0: int|
                                0 <= j0 < kept@.len() && kept@[j0] == id;
                            if j0 < kept_pre.len() {
                                assert(kept_pre.contains(id));
                            }
                        }
                    }
                    assert forall|id2: TopoId| id2 != id implies
                        (kept@.contains(id2) <==> (exists|j: int|
                            0 <= j < i + 1 && self.unseen_ids@[j] == id2)) by {
                        if kept@.contains(id2) {
                            let j0 = choose|j0: int|
                                0 <= j0 < kept@.len() && kept@[j0] == id2;
                            if j0 < kept_pre.len() {
                                assert(kept_pre.contains(id2));
                                let j1 = choose|j1: int|
                                    0 <= j1 < i && self.unseen_ids@[j1] == id2;
                                assert(0 <= j1 < i + 1 && self.unseen_ids@[j1] == id2);
                            } else {
                                assert(self.unseen_ids@[i as int] == id2);
                            }
                        }
                        if exists|j: int| 0 <= j < i + 1 && self.unseen_ids@[j] == id2 {
                            let j1 = choose|j: int|
                                0 <= j < i + 1 && self.unseen_ids@[j] == id2;
                            if j1 < i {
                                assert(kept_pre.contains(id2));
                                let j0 = choose|j0: int|
                                    0 <= j0 < kept_pre.len() && kept_pre[j0] == id2;
                                assert(kept@[j0] == id2);
                                assert(kept@.contains(id2));
                            } else {
                                assert(kept@[kept@.len() - 1] == x);
                                assert(kept@.contains(id2));
                            }
                        }
                    }
                }
            }
            i = i + 1;
        }
        self.unseen_ids = kept;
    }

    /// Writes `value` for `id` into `pool`, allocating `id`'s slot if it has
    /// none, and marks `id` seen. Overwrites any previous `T` for `id`; see
    /// [`set_post`] for the full effect.
    pub fn set_state<T>(&mut self, pool: &mut Pool<T>, id: TopoId, value: T)
        requires
            old(self).wf(),
        ensures
            set_post(*old(self), *old(pool), *final(self), *final(pool), id, value),
    {
        let ghost pre = *old(self);
        let ghost pre_pool = *old(pool);
        let k = self.arena.allocate(id);
        self.mark_id_as_active(id);
        pool.set(k, value);
        proof {
            self.arena.lemma_key_of(id, k);
            assert forall|id2: TopoId| id2 != id implies
                self.state_of(*pool, id2) == pre.state_of(pre_pool, id2) by {
                if pre.live(id2) {
                    pre.arena.lemma_has_key(id2);
                    let k2 = pre.key_of(id2);
                    assert(self.arena.id_has_key(id2, k2));
                    self.arena.lemma_key_of(id2, k2);
                    assert(k2.index != k.index);
                }
            }
            if pre.pool_bounded(pre_pool) {
                assert forall|k2: SlotKey| pool.spec_get(k2).is_some() implies
                    self.arena.bounded_key(k2) by {
                    if k2.index == k.index {
                        assert(k2 == k);
                    } else {
                        assert(pre_pool.spec_get(k2) == pool.spec_get(k2));
                    }
                }
            }
        }
    }

    /// Whether `pool` stores a value for `id`. Never allocates a slot; marks
    /// `id` seen exactly when it already has one, since probing is itself
    /// evidence of liveness.
    pub fn state_exists<T>(&mut self, pool: &Pool<T>, id: TopoId) -> (r: bool)
        requires
            old(self).wf(),
        ensures
            r == old(self).state_of(*pool, id).is_some(),
            old(self).live(id) ==> touched(*old(self), *final(self), id),
            !old(self).live(id) ==> *final(self) == *old(self),
    {
        match self.arena.lookup(id) {
            Some(k) => {
                self.mark_id_as_active(id);
                pool.contains(k)
            },
            None => false,
        }
    }

    /// A clone of the value `pool` stores for `id`, or `None` if there is
    /// none — first-pass absence is not an error. Marks `id` seen.
    pub fn clone_state<T: Clone>(&mut self, pool: &Pool<T>, id: TopoId) -> (r: Option<T>)
        requires
            old(self).wf(),
        ensures
            touched(*old(self), *final(self), id),
            r.is_some() == old(self).state_of(*pool, id).is_some(),
            r matches Some(v) ==> (old(self).state_of(*pool, id) matches Some(w) && cloned::<T>(
                w,
                v,
            )),
    {
        self.mark_id_as_active(id);
        match self.arena.lookup(id) {
            Some(k) => match pool.get(k) {
                Some(v) => Some(v.clone()),
                None => None,
            },
            None => None,
        }
    }

    /// The value `pool` stores for `id`, which the caller asserts is present:
    /// for call sites that have already guaranteed initialization. Marks `id`
    /// seen.
    pub fn hard_get<T: Clone>(&mut self, pool: &Pool<T>, id: TopoId) -> (r: T)
        requires
            old(self).wf(),
            old(self).state_of(*pool, id).is_some(),
        ensures
            touched(*old(self), *final(self), id),
            cloned::<T>(old(self).state_of(*pool, id).unwrap(), r),
    {
        match self.clone_state(pool, id) {
            Some(v) => v,
            None => unreached(),
        }
    }

    /// Removes and returns `id`'s entry from this one pool; `id`'s slot and
    /// its state of other types are unaffected. Absence is reported as
    /// `None`, and `id` is not marked seen: removal is not evidence of
    /// liveness. See [`remove_post`].
    pub fn remove_state<T>(&mut self, pool: &mut Pool<T>, id: TopoId) -> (r: Option<T>)
        requires
            old(self).wf(),
        ensures
            remove_post(*old(self), *old(pool), *final(self), *final(pool), id, r),
    {
        let ghost pre = *old(self);
        let ghost pre_pool = *old(pool);
        match self.arena.lookup(id) {
            Some(k) => {
                let r = pool.take(k);
                proof {
                    assert forall|id2: TopoId| id2 != id implies
                        self.state_of(*pool, id2) == pre.state_of(pre_pool, id2) by {
                        if pre.live(id2) {
                            pre.arena.lemma_has_key(id2);
                            let k2 = pre.key_of(id2);
                            assert(k2 != k);
                        }
                    }
                }
                r
            },
            None => None,
        }
    }

    /// Replaces `id`'s stored value in `pool` by `f` applied to it, and marks
    /// `id` seen. The value must be present: updating a missing value is a
    /// call-ordering error. While `f` runs it owns the value — the cell is
    /// transiently empty, and no reentrant access to it is possible. See
    /// [`update_post`].
    pub fn update_state<T, F: FnOnce(T) -> T>(&mut self, pool: &mut Pool<T>, id: TopoId, f: F)
        requires
            old(self).wf(),
            old(self).state_of(*old(pool), id).is_some(),
            call_requires(f, (old(self).state_of(*old(pool), id).unwrap(),)),
        ensures
            update_post(*old(self), *old(pool), *final(self), *final(pool), id, f),
    {
        let ghost pre = *old(self);
        let ghost pre_pool = *old(pool);
        let k = match self.arena.lookup(id) {
            Some(k) => k,
            None => unreached(),
        };
        let v = match pool.take(k) {
            Some(v) => v,
            None => unreached(),
        };
        let w = f(v);
        pool.set(k, w);
        self.mark_id_as_active(id);
        proof {
            assert forall|id2: TopoId| id2 != id implies
                self.state_of(*pool, id2) == pre.state_of(pre_pool, id2) by {
                if pre.live(id2) {
                    pre.arena.lemma_has_key(id2);
                    let k2 = pre.key_of(id2);
                    assert(k2.index != k.index);
                }
            }
            if pre.pool_bounded(pre_pool) {
                assert forall|k2: SlotKey| pool.spec_get(k2).is_some() implies
                    self.arena.bounded_key(k2) by {
                    if k2.index == k.index {
                        assert(k2 == k);
                    } else {
                        assert(pre_pool.spec_get(k2) == pool.spec_get(k2));
                    }
                }
            }
        }
    }

    /// Applies `f` to a borrow of `id`'s stored value, without duplicating
    /// it, and marks `id` seen. The value must be present: reading a missing
    /// value is a call-ordering error.
    pub fn read_state<T, R, F: FnOnce(&T) -> R>(&mut self, pool: &Pool<T>, id: TopoId, f: F) -> (r:
        R)
        requires
            old(self).wf(),
            old(self).state_of(*pool, id).is_some(),
            call_requires(f, (&old(self).state_of(*pool, id).unwrap(),)),
        ensures
            touched(*old(self), *final(self), id),
            call_ensures(f, (&old(self).state_of(*pool, id).unwrap(),), r),
    {
        let k = match self.arena.lookup(id) {
            Some(k) => k,
            None => unreached(),
        };
        let v = match pool.get(k) {
            Some(v) => v,
            None => unreached(),
        };
        let r = f(v);
        self.mark_id_as_active(id);
        r
    }
}

/// Operations that route the pool through the type-indexed registry, as the
/// ergonomic layer does: one call, no pool in hand. The registry is opaque to
/// the verifier, so these contracts are exact for the arena and the liveness
/// tracker but silent on the stored values; the value-level contracts live on
/// the pool-explicit operations above.
impl Store {
    /// Stores `data` for `current_id` in the registry's `T` pool, creating
    /// the pool on first use, and marks `current_id` seen.
    pub fn set_state_with_topo_id<T: 'static>(&mut self, data: T, current_id: TopoId)
        requires
            old(self).wf(),
        ensures
            final(self).wf(),
            final(self).live(current_id),
            !final(self).unseen(current_id),
            forall|id2: TopoId|
                id2 != current_id ==> (final(self).unseen(id2) <==> old(self).unseen(id2)),
            forall|id2: TopoId|
                final(self).live(id2) <==> (old(self).live(id2) || id2 == current_id),
            forall|id2: TopoId, k: SlotKey|
                id2 != current_id ==> (old(self).arena.id_has_key(id2, k)
                    <==> final(self).arena.id_has_key(id2, k)),
            old(self).live(current_id) ==> final(self).arena == old(self).arena,
            forall|k: SlotKey| old(self).arena.bounded_key(k) ==> final(self).arena.bounded_key(k),
            forall|k: SlotKey| old(self).arena.retired(k) ==> final(self).arena.retired(k),
    {
        let mut p: Pool<T> = match self.pools.take_pool::<T>() {
            Some(p) => p,
            None => Pool::new(),
        };
        let ghost pre = *self;
        let ghost pre_pool = p;
        self.set_state(&mut p, current_id, data);
        let ghost post = *self;
        self.pools.put_pool(p);
        proof {
            assert forall|id2: TopoId| id2 != current_id implies
                (final(self).unseen(id2) <==> old(self).unseen(id2)) by {
                assert(post.unseen(id2) <==> pre.unseen(id2));
            }
            assert forall|id2: TopoId|
                final(self).live(id2) <==> (old(self).live(id2) || id2 == current_id) by {
                assert(post.live(id2) <==> (pre.live(id2) || id2 == current_id));
            }
        }
    }

    /// Whether the registry's `T` pool stores a value for `id`. Never
    /// allocates a slot; marks `id` seen exactly when it has one.
    pub fn state_exists_with_topo_id<T: 'static>(&mut self, id: TopoId) -> (r: bool)
        requires
            old(self).wf(),
        ensures
            final(self).arena == old(self).arena,
            !old(self).live(id) ==> !r,
            old(self).live(id) ==> touched(*old(self), *final(self), id),
            !old(self).live(id) ==> *final(self) == *old(self),
    {
        match self.arena.lookup(id) {
            Some(k) => {
                self.mark_id_as_active(id);
                match self.pools.pool_ref::<T>() {
                    Some(p) => p.contains(k),
                    None => false,
                }
            },
            None => false,
        }
    }

    /// A clone of what the registry's `T` pool stores for `id`, or `None`.
    /// Marks `id` seen.
    pub fn get_state_with_topo_id<T: 'static + Clone>(&mut self, id: TopoId) -> (r: Option<T>)
        requires
            old(self).wf(),
        ensures
            touched(*old(self), *final(self), id),
            !old(self).live(id) ==> r.is_none(),
    {
        self.mark_id_as_active(id);
        match self.arena.lookup(id) {
            Some(k) => match self.pools.pool_ref::<T>() {
                Some(p) => match p.get(k) {
                    Some(v) => Some(v.clone()),
                    None => None,
                },
                None => None,
            },
            None => None,
        }
    }

    /// Removes `id`'s entry from the registry's `T` pool, returning it if
    /// there was one. The slot and other types' state stay; `id` is not
    /// marked seen.
    pub fn remove_state_with_topo_id<T: 'static>(&mut self, current_id: TopoId) -> (r: Option<T>)
        requires
            old(self).wf(),
        ensures
            final(self).wf(),
            final(self).arena == old(self).arena,
            final(self).unseen_ids == old(self).unseen_ids,
            !old(self).live(current_id) ==> r.is_none(),
    {
        match self.pools.take_pool::<T>() {
            Some(mut p) => {
                let r = self.remove_state(&mut p, current_id);
                self.pools.put_pool(p);
                r
            },
            None => None,
        }
    }

    /// Replaces what the registry's `T` pool stores for `id` by `f` applied
    /// to it. Returns whether a value was present and updated; an absent
    /// value leaves everything unchanged but the registry's pool bookkeeping.
    pub fn update_state_with_topo_id<T: 'static, F: FnOnce(T) -> T>(&mut self, id: TopoId, f: F)
        -> (updated: bool)
        requires
            old(self).wf(),
            forall|v: T| call_requires(f, (v,)),
        ensures
            final(self).wf(),
            !old(self).live(id) ==> !updated,
            updated ==> final(self).arena == old(self).arena && !final(self).unseen(id) && (
            forall|id2: TopoId|
                id2 != id ==> (final(self).unseen(id2) <==> old(self).unseen(id2))),
            !updated ==> final(self).arena == old(self).arena
                && final(self).unseen_ids == old(self).unseen_ids,
    {
        match self.pools.take_pool::<T>() {
            Some(mut p) => {
                let ghost pre = *self;
                let updated = match self.remove_state(&mut p, id) {
                    Some(v) => {
                        let w = f(v);
                        self.set_state(&mut p, id, w);
                        true
                    },
                    None => false,
                };
                let ghost post = *self;
                self.pools.put_pool(p);
                proof {
                    if updated {
                        assert forall|id2: TopoId| id2 != id implies
                            (final(self).unseen(id2) <==> old(self).unseen(id2)) by {
                            assert(post.unseen(id2) <==> pre.unseen(id2));
                        }
                    }
                }
                updated
            },
            None => false,
        }
    }

    /// Applies `f` to a borrow of what the registry's `T` pool stores for
    /// `id`, returning `None` untouched if nothing is stored. Marks `id` seen
    /// when a value was read.
    pub fn read_state_with_topo_id<T: 'static, R, F: FnOnce(&T) -> R>(&mut self, id: TopoId, f: F)
        -> (r: Option<R>)
        requires
            old(self).wf(),
            forall|v: &T| call_requires(f, (v,)),
        ensures
            final(self).wf(),
            final(self).arena == old(self).arena,
            !old(self).live(id) ==> r.is_none(),
    {
        match self.arena.lookup(id) {
            Some(k) => {
                let r = match self.pools.pool_ref::<T>() {
                    Some(p) => match p.get(k) {
                        Some(v) => Some(f(v)),
                        None => None,
                    },
                    None => None,
                };
                if r.is_some() {
                    self.mark_id_as_active(id);
                }
                r
            },
            None => None,
        }
    }

    /// Puts an empty `T` pool into the registry, replacing any pool stored
    /// for `T`.
    pub fn register_secondarymap<T: 'static>(&mut self)
        requires
            old(self).wf(),
        ensures
            final(self).wf(),
            final(self).arena == old(self).arena,
            final(self).unseen_ids == old(self).unseen_ids,
    {
        let p: Pool<T> = Pool::new();
        self.pools.put_pool(p);
    }
}

} // verus!

//! The public store API as free functions over an explicitly passed
//! [`Store`], and the mark-and-sweep cycle that reclaims state for call sites
//! no longer visited.
//!
//! One cycle: [`reset_unseen_id_list`] seeds the unseen set with every live
//! identity; every store operation that touches an identity removes it from
//! that set; [`purge_and_reset_unseen_ids`] then sweeps — deallocating the
//! slot of every identity still unseen — and immediately reseeds, so one call
//! per pass both reclaims and starts the next cycle.

use vstd::prelude::*;
use crate::arena::{SlotKey, TopoId};
use crate::drop_type::DropType;
use crate::pool::Pool;
use crate::store::{touched, Store};

verus! {

/// Effect of seeding: the arena and pools are untouched and the sweep
/// candidates are exactly the live identities.
pub open spec fn seed_post(pre: Store, post: Store) -> bool {
    &&& post.wf()
    &&& post.arena == pre.arena
    &&& post.pools == pre.pools
    &&& forall|id: TopoId| post.unseen(id) <==> post.live(id)
}

/// Effect of the sweep half of a cycle: every identity still unseen loses its
/// slot, with the slot's old key permanently retired; every identity touched
/// since the seed keeps its slot under its old key. Pools are untouched, so
/// a swept identity's entries merely become unreachable.
pub open spec fn purge_post(pre: Store, post: Store) -> bool {
    &&& post.wf()
    &&& forall|id: TopoId| post.live(id) <==> (pre.live(id) && !pre.unseen(id))
    &&& forall|id: TopoId, k: SlotKey|
        !pre.unseen(id) ==> (pre.arena.id_has_key(id, k) <==> post.arena.id_has_key(id, k))
    &&& forall|k: SlotKey| pre.arena.bounded_key(k) ==> post.arena.bounded_key(k)
    &&& forall|k: SlotKey| pre.arena.retired(k) ==> post.arena.retired(k)
    &&& forall|id: TopoId|
        pre.unseen(id) && pre.live(id) ==> post.arena.retired(pre.key_of(id))
    &&& post.pools == pre.pools
}

/// Effect of the combined sweep-and-reseed: a [`purge_post`] sweep followed
/// by a [`seed_post`] seed of the surviving identities.
pub open spec fn sweep_post(pre: Store, post: Store) -> bool {
    &&& purge_post(pre, post)
    &&& forall|id: TopoId| post.unseen(id) <==> post.live(id)
}

/// Stores `data` of type `T` for `current_id`, through the registry.
pub fn set_state_with_topo_id<T: 'static>(store: &mut Store, data: T, current_id: TopoId)
    requires
        old(store).wf(),
    ensures
        final(store).wf(),
        final(store).live(current_id),
        !final(store).unseen(current_id),
        forall|id2: TopoId|
            id2 != current_id ==> (final(store).unseen(id2) <==> old(store).unseen(id2)),
        forall|id2: TopoId|
            final(store).live(id2) <==> (old(store).live(id2) || id2 == current_id),
        old(store).live(current_id) ==> final(store).arena == old(store).arena,
        forall|k: SlotKey| old(store).arena.bounded_key(k) ==> final(store).arena.bounded_key(k),
        forall|k: SlotKey| old(store).arena.retired(k) ==> final(store).arena.retired(k),
    {
    store.set_state_with_topo_id(data, current_id);
}

/// Whether a `T` is stored for `id`, through the registry.
pub fn state_exists_for_topo_id<T: 'static>(store: &mut Store, id: TopoId) -> (r: bool)
    requires
        old(store).wf(),
    ensures
        final(store).arena == old(store).arena,
        !old(store).live(id) ==> !r,
        old(store).live(id) ==> touched(*old(store), *final(store), id),
        !old(store).live(id) ==> *final(store) == *old(store),
{
    store.state_exists_with_topo_id::<T>(id)
}

/// Marks `id` seen for the current sweep cycle.
pub fn mark_id_as_active(store: &mut Store, id: TopoId)
    ensures
        final(store).arena == old(store).arena,
        final(store).pools == old(store).pools,
        !final(store).unseen(id),
        forall|id2: TopoId|
            id2 != id ==> (final(store).unseen(id2) <==> old(store).unseen(id2)),
{
    store.mark_id_as_active(id);
}

/// A clone of the `T` stored for `id`, through the registry.
pub fn clone_state_with_topo_id<T: 'static + Clone>(store: &mut Store, id: TopoId) -> (r: Option<
    T,
>)
    requires
        old(store).wf(),
    ensures
        touched(*old(store), *final(store), id),
        !old(store).live(id) ==> r.is_none(),
{
    store.get_state_with_topo_id::<T>(id)
}

/// Removes and returns the `T` stored for `id`, through the registry.
pub fn remove_state_with_topo_id<T: 'static>(store: &mut Store, id: TopoId) -> (r: Option<T>)
    requires
        old(store).wf(),
    ensures
        final(store).wf(),
        final(store).arena == old(store).arena,
        final(store).unseen_ids == old(store).unseen_ids,
        !old(store).live(id) ==> r.is_none(),
{
    store.remove_state_with_topo_id::<T>(id)
}

/// Replaces the `T` stored for `id` by `func` applied to it, through the
/// registry; reports whether a value was there to update.
pub fn update_state_with_topo_id<T: 'static, F: FnOnce(T) -> T>(
    store: &mut Store,
    id: TopoId,
    func: F,
) -> (updated: bool)
    requires
        old(store).wf(),
        forall|v: T| call_requires(func, (v,)),
    ensures
        final(store).wf(),
        !old(store).live(id) ==> !updated,
        updated ==> final(store).arena == old(store).arena && !final(store).unseen(id),
        !updated ==> final(store).arena == old(store).arena && final(store).unseen_ids == old(store).unseen_ids,
{
    store.update_state_with_topo_id(id, func)
}

/// Applies `func` to a borrow of the `T` stored for `id`, through the
/// registry; `None` if nothing is stored.
pub fn read_state_with_topo_id<T: 'static, R, F: FnOnce(&T) -> R>(
    store: &mut Store,
    id: TopoId,
    func: F,
) -> (r: Option<R>)
    requires
        old(store).wf(),
        forall|v: &T| call_requires(func, (v,)),
    ensures
        final(store).wf(),
        final(store).arena == old(store).arena,
        !old(store).live(id) ==> r.is_none(),
{
    store.read_state_with_topo_id(id, func)
}

/// Seeds the next sweep cycle: every identity currently holding a slot
/// becomes a sweep candidate, until touched.
pub fn reset_unseen_id_list(store: &mut Store)
    requires
        old(store).wf(),
    ensures
        seed_post(*old(store), *final(store)),
{
    let ids = store.arena.live_ids();
    store.unseen_ids = ids;
}

/// Sweeps: deallocates the slot of every identity not touched since the last
/// seed. The unseen list itself is left for the caller to reseed. Pool
/// entries of swept identities are not purged: their keys are retired, so
/// they are unreachable through any identity.
pub fn purge_unseen_ids(store: &mut Store)
    requires
        old(store).wf(),
    ensures
        purge_post(*old(store), *final(store)),
        final(store).unseen_ids == old(store).unseen_ids,
{
    let mut i: usize = 0;
    while i < store.unseen_ids.len()
        invariant
            old(store).wf(),
            store.wf(),
            i <= store.unseen_ids@.len(),
            store.unseen_ids == old(store).unseen_ids,
            store.pools == old(store).pools,
            forall|id: TopoId|
                store.live(id) <==> (old(store).live(id) && !(exists|j: int|
                    0 <= j < i && old(store).unseen_ids@[j] == id)),
            forall|id: TopoId, k: SlotKey|
                !(exists|j: int| 0 <= j < i && old(store).unseen_ids@[j] == id) ==> (old(store).arena.id_has_key(id, k) <==> store.arena.id_has_key(id, k)),
            forall|k: SlotKey|
                old(store).arena.bounded_key(k) ==> store.arena.bounded_key(k),
            forall|k: SlotKey| old(store).arena.retired(k) ==> store.arena.retired(k),
            forall|id: TopoId|
                (exists|j: int| 0 <= j < i && old(store).unseen_ids@[j] == id) && old(store).live(id) ==> store.arena.retired(old(store).key_of(id)),
        decreases store.unseen_ids@.len() - i,
    {
        let id = store.unseen_ids[i];
        let ghost mid = *store;
        store.arena.deallocate(id);
        proof {
            assert(old(store).unseen_ids@[i as int] == id);
            if old(store).live(id) && !(exists|j: int|
                0 <= j < i && old(store).unseen_ids@[j] == id) {
                old(store).arena.lemma_has_key(id);
                let k0 = old(store).key_of(id);
                assert(mid.arena.id_has_key(id, k0));
                mid.arena.lemma_key_of(id, k0);
            }
            assert forall|id2: TopoId|
                store.live(id2) <==> (old(store).live(id2) && !(exists|j: int|
                    0 <= j < i + 1 && old(store).unseen_ids@[j] == id2)) by {
                if id2 == id {
                    assert(0 <= i < i + 1 && old(store).unseen_ids@[i as int] == id2);
                } else {
                    assert(mid.live(id2) <==> store.live(id2));
                    assert((exists|j: int| 0 <= j < i + 1 && old(store).unseen_ids@[j] == id2)
                        <==> (exists|j: int| 0 <= j < i && old(store).unseen_ids@[j] == id2)) by {
                        if exists|j: int| 0 <= j < i + 1 && old(store).unseen_ids@[j] == id2 {
                            let j = choose|j: int|
                                0 <= j < i + 1 && old(store).unseen_ids@[j] == id2;
                            assert(j != i);
                            assert(0 <= j < i && old(store).unseen_ids@[j] == id2);
                        }
                    }
                }
            }
            assert forall|id2: TopoId|
                (exists|j: int| 0 <= j < i + 1 && old(store).unseen_ids@[j] == id2) && old(store).live(id2) implies store.arena.retired(old(store).key_of(id2)) by {
                if id2 == id {
                    if !(exists|j: int| 0 <= j < i && old(store).unseen_ids@[j] == id) {
                        if mid.live(id) {
                            assert(store.arena.retired(mid.arena.key_of(id)));
                        }
                    }
                } else {
                    let j = choose|j: int| 0 <= j < i + 1 && old(store).unseen_ids@[j] == id2;
                    assert(0 <= j < i && old(store).unseen_ids@[j] == id2);
                    assert(mid.arena.retired(old(store).key_of(id2)));
                }
            }
        }
        i = i + 1;
    }
    proof {
        assert forall|id: TopoId|
            store.live(id) <==> (old(store).live(id) && !old(store).unseen(id)) by {
            assert(old(store).unseen(id) <==> (exists|j: int|
                0 <= j < old(store).unseen_ids@.len() && old(store).unseen_ids@[j] == id));
        }
        assert forall|id: TopoId, k: SlotKey| !old(store).unseen(id) implies (old(store).arena.id_has_key(id, k) <==> store.arena.id_has_key(id, k)) by {
            assert(!(exists|j: int|
                0 <= j < old(store).unseen_ids@.len() && old(store).unseen_ids@[j] == id));
        }
    }
}

/// One sweep-and-reseed: reclaims every identity not touched since the last
/// seed, then seeds the next cycle with the identities that survive. One call
/// per pass keeps state alive exactly for the call sites the pass visited.
pub fn purge_and_reset_unseen_ids(store: &mut Store)
    requires
        old(store).wf(),
    ensures
        sweep_post(*old(store), *final(store)),
{
    purge_unseen_ids(store);
    reset_unseen_id_list(store);
}

/// The identities currently still unseen in this cycle.
pub fn unseen_ids(store: &Store) -> (r: Vec<TopoId>)
    ensures
        r@ == store.unseen_ids@,
{
    let mut out: Vec<TopoId> = Vec::new();
    let mut i: usize = 0;
    while i < store.unseen_ids.len()
        invariant
            i <= store.unseen_ids@.len(),
            out@ == store.unseen_ids@.subrange(0, i as int),
        decreases store.unseen_ids@.len() - i,
    {
        out.push(store.unseen_ids[i]);
        proof {
            assert(out@ =~= store.unseen_ids@.subrange(0, i + 1));
        }
        i = i + 1;
    }
    proof {
        assert(out@ =~= store.unseen_ids@);
    }
    out
}

/// Runs and removes the unmount callback of every identity still unseen: the
/// identities about to be swept. Callbacks of identities touched this cycle
/// stay in place. The store itself is not changed.
pub fn execute_and_remove_unmounts<F: Fn() -> ()>(store: &Store, unmounts: &mut Pool<DropType<F>>)
    requires
        store.wf(),
        forall|k: SlotKey|
            #[trigger] old(unmounts).spec_get(k) matches Some(dt) ==> dt.wf(),
    ensures
        forall|id: TopoId|
            store.unseen(id) ==> store.state_of(*final(unmounts), id) == None::<DropType<F>>,
        forall|id: TopoId|
            !store.unseen(id) ==> store.state_of(*final(unmounts), id) == store.state_of(
                *old(unmounts),
                id,
            ),
        forall|k: SlotKey| #[trigger] final(unmounts).spec_get(k) matches Some(dt) ==> dt.wf(),
{
    let mut i: usize = 0;
    while i < store.unseen_ids.len()
        invariant
            store.wf(),
            i <= store.unseen_ids@.len(),
            forall|k: SlotKey| #[trigger] unmounts.spec_get(k) matches Some(dt) ==> dt.wf(),
            forall|id: TopoId|
                (exists|j: int| 0 <= j < i && store.unseen_ids@[j] == id) ==> store.state_of(
                    *unmounts,
                    id,
                ) == None::<DropType<F>>,
            forall|id: TopoId|
                !(exists|j: int| 0 <= j < i && store.unseen_ids@[j] == id) ==> store.state_of(
                    *unmounts,
                    id,
                ) == store.state_of(*old(unmounts), id),
        decreases store.unseen_ids@.len() - i,
    {
        let id = store.unseen_ids[i];
        let ghost mid = *unmounts;
        match store.arena.lookup(id) {
            Some(k) => {
                match unmounts.take(k) {
                    Some(dt) => {
                        dt.execute_if_activated();
                    },
                    None => {},
                }
                proof {
                    assert forall|id2: TopoId| id2 != id implies
                        store.state_of(*unmounts, id2) == store.state_of(mid, id2) by {
                        if store.live(id2) {
                            store.arena.lemma_has_key(id2);
                            assert(store.key_of(id2) != k);
                        }
                    }
                    assert(unmounts.spec_get(k) == None::<DropType<F>>);
                    assert(store.state_of(*unmounts, id) == None::<DropType<F>>);
                }
            },
            None => {},
        }
        proof {
            assert(store.unseen_ids@[i as int] == id);
            assert(store.state_of(*unmounts, id) == None::<DropType<F>>);
            assert forall|id2: TopoId| id2 != id implies
                store.state_of(*unmounts, id2) == store.state_of(mid, id2) by {
            }
            assert forall|id2: TopoId|
                (exists|j: int| 0 <= j < i + 1 && store.unseen_ids@[j] == id2) implies
                store.state_of(*unmounts, id2) == None::<DropType<F>> by {
                if id2 != id {
                    let j = choose|j: int| 0 <= j < i + 1 && store.unseen_ids@[j] == id2;
                    assert(0 <= j < i && store.unseen_ids@[j] == id2);
                    assert(store.state_of(mid, id2) == None::<DropType<F>>);
                }
            }
            assert forall|id2: TopoId|
                !(exists|j: int| 0 <= j < i + 1 && store.unseen_ids@[j] == id2) implies
                store.state_of(*unmounts, id2) == store.state_of(*old(unmounts), id2) by {
                assert(!(exists|j: int| 0 <= j < i && store.unseen_ids@[j] == id2));
                assert(id2 != id);
            }
        }
        i = i + 1;
    }
    proof {
        assert forall|id: TopoId| store.unseen(id) implies
            store.state_of(*unmounts, id) == None::<DropType<F>> by {
            let j = choose|j: int|
                0 <= j < store.unseen_ids@.len() && store.unseen_ids@[j] == id;
            assert(0 <= j < store.unseen_ids@.len() && store.unseen_ids@[j] == id);
        }
        assert forall|id: TopoId| !store.unseen(id) implies
            store.state_of(*unmounts, id) == store.state_of(*old(unmounts), id) by {
            assert(!(exists|j: int|
                0 <= j < store.unseen_ids@.len() && store.unseen_ids@[j] == id));
        }
    }
}

} // verus!

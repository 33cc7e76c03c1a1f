//! The store's governing laws, each proved from the operation contracts: what
//! a caller may rely on across sequences of operations.
//!
//! Each lemma takes the stores and pools before and after the operations in
//! question, related by the operations' postcondition relations ([`set_post`],
//! [`update_post`], [`remove_post`], [`seed_post`], [`sweep_post`],
//! [`touched`]), and concludes what the later states must look like.

use vstd::prelude::*;
use vstd::pervasive::cloned;
use crate::arena::{SlotKey, TopoId};
use crate::pool::Pool;
use crate::state_functions::{seed_post, sweep_post};
use crate::store::{remove_post, set_post, touched, update_post, Store};

verus! {

/// Law: a value just stored is the state read back. After `set_state(id, v)`
/// the state for `id` is exactly `v`; any result meeting `clone_state`'s
/// contract is therefore `Some` of a clone of `v`.
pub proof fn lemma_set_then_get_clone<T: Clone>(
    s0: Store,
    p0: Pool<T>,
    s1: Store,
    p1: Pool<T>,
    id: TopoId,
    v: T,
    r: Option<T>,
)
    requires
        set_post(s0, p0, s1, p1, id, v),
        r.is_some() == s1.state_of(p1, id).is_some(),
        r matches Some(x) ==> (s1.state_of(p1, id) matches Some(w) && cloned::<T>(w, x)),
    ensures
        s1.state_of(p1, id) == Some(v),
        r.is_some() && cloned::<T>(v, r.unwrap()),
{
}

/// Law: updating just-stored state applies the mutator to it. After
/// `set_state(id, v)` and then `update_state(id, f)`, the state for `id` is a
/// value `f` may return for `v` — for a deterministic `f`, exactly `f(v)`.
pub proof fn lemma_update_after_set<T, F: FnOnce(T) -> T>(
    s0: Store,
    p0: Pool<T>,
    s1: Store,
    p1: Pool<T>,
    s2: Store,
    p2: Pool<T>,
    id: TopoId,
    v: T,
    f: F,
)
    requires
        set_post(s0, p0, s1, p1, id, v),
        update_post(s1, p1, s2, p2, id, f),
    ensures
        s2.state_of(p2, id).is_some(),
        call_ensures(f, (v,), s2.state_of(p2, id).unwrap()),
{
}

/// Law: existence follows the set/remove lifecycle. In a pool nothing has
/// been stored in, no state exists for `id`; immediately after `set_state` it
/// does; after `remove_state` it does not, and the removal returns the stored
/// value itself.
pub proof fn lemma_exists_set_remove<T>(
    s0: Store,
    p0: Pool<T>,
    s1: Store,
    p1: Pool<T>,
    s2: Store,
    p2: Pool<T>,
    id: TopoId,
    v: T,
    removed: Option<T>,
)
    requires
        forall|k: SlotKey| p0.spec_get(k) == None::<T>,
        set_post(s0, p0, s1, p1, id, v),
        remove_post(s1, p1, s2, p2, id, removed),
    ensures
        s0.state_of(p0, id) == None::<T>,
        s1.state_of(p1, id).is_some(),
        removed == Some(v),
        s2.state_of(p2, id) == None::<T>,
{
}

/// Law: distinct types stored under one identity do not interfere. Storing a
/// `T1` and then a `T2` for the same identity leaves both readable, each from
/// its own pool.
pub proof fn lemma_distinct_types_noninterfere<T1, T2>(
    s0: Store,
    pa0: Pool<T1>,
    s1: Store,
    pa1: Pool<T1>,
    pb0: Pool<T2>,
    s2: Store,
    pb1: Pool<T2>,
    id: TopoId,
    v1: T1,
    v2: T2,
)
    requires
        set_post(s0, pa0, s1, pa1, id, v1),
        set_post(s1, pb0, s2, pb1, id, v2),
    ensures
        s2.state_of(pa1, id) == Some(v1),
        s2.state_of(pb1, id) == Some(v2),
{
    assert(s1.live(id));
    assert(s2.arena == s1.arena);
}

/// Law (liveness): an identity touched between a seed and the following
/// sweep-and-reseed survives it, its slot key and its stored state intact.
pub proof fn lemma_touched_survives_sweep<T>(
    s0: Store,
    s1: Store,
    s2: Store,
    s3: Store,
    p: Pool<T>,
    id: TopoId,
)
    requires
        s0.wf(),
        s0.live(id),
        seed_post(s0, s1),
        touched(s1, s2, id),
        sweep_post(s2, s3),
    ensures
        s3.live(id),
        s3.key_of(id) == s0.key_of(id),
        s3.state_of(p, id) == s0.state_of(p, id),
{
    s0.arena.lemma_has_key(id);
    let k = s0.key_of(id);
    assert(s2.arena.id_has_key(id, k));
    assert(s2.live(id)) by {
        assert(s2.arena.occupied_by(k.index as int, id));
    }
    assert(s3.arena.id_has_key(id, k));
    s3.arena.lemma_key_of(id, k);
    assert(s3.live(id)) by {
        assert(s3.arena.occupied_by(k.index as int, id));
    }
}

/// Law (reclamation): an identity not touched between a seed and the
/// following sweep loses its slot, and no state of any type is reachable for
/// it afterwards.
pub proof fn lemma_untouched_reclaimed<T>(s0: Store, s1: Store, s2: Store, p: Pool<T>, id: TopoId)
    requires
        s0.wf(),
        seed_post(s0, s1),
        sweep_post(s1, s2),
    ensures
        !s2.live(id),
        s2.state_of(p, id) == None::<T>,
{
}

/// Law (generational safety): once an identity is swept, its old slot key is
/// permanently retired. Even after another identity is allocated — possibly
/// reusing the same slot index — the stale key resolves to no identity at
/// all, and state lookups for the swept identity find nothing: never the new
/// occupant's data.
pub proof fn lemma_stale_key_never_resolves<T>(
    s1: Store,
    s2: Store,
    p2: Pool<T>,
    s3: Store,
    p3: Pool<T>,
    idb: TopoId,
    idc: TopoId,
    v: T,
)
    requires
        s1.wf(),
        s1.live(idb),
        s1.unseen(idb),
        sweep_post(s1, s2),
        set_post(s2, p2, s3, p3, idc, v),
        idb != idc,
    ensures
        s3.arena.id_of_key(s1.key_of(idb)) == None::<TopoId>,
        !s3.live(idb),
        s3.state_of(p3, idb) == None::<T>,
{
    let k = s1.key_of(idb);
    assert(s2.arena.retired(k));
    assert(s3.arena.retired(k));
    s3.arena.lemma_retired_resolves_to_none(k);
}

} // verus!

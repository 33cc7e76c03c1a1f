//! Access handles: a [`StateAccess`] pairs an identity with a stored type, so
//! a call site can hand out one typed capability instead of re-specifying the
//! identity at every operation.
//!
//! A handle owns nothing: every operation goes to the [`Store`] (and the
//! type's [`Pool`]) it is given.

use vstd::prelude::*;
use vstd::pervasive::cloned;
use core::marker::PhantomData;
use crate::arena::TopoId;
use crate::drop_type::DropType;
use crate::pool::Pool;
use crate::store::{remove_post, set_post, touched, update_post, Store};

verus! {

/// A typed capability for the state of type `T` under one identity. Handles
/// carry only the identity: [`StateAccess::duplicate`] copies one freely.
pub struct StateAccess<T> {
    pub id: TopoId,
    pub phantom: PhantomData<T>,
}

impl<T> StateAccess<T> {
    pub fn new(id: TopoId) -> (s: StateAccess<T>)
        ensures
            s.id == id,
    {
        StateAccess { id, phantom: PhantomData }
    }

    /// An identical handle; handles are freely duplicable.
    pub fn duplicate(&self) -> (s: StateAccess<T>)
        ensures
            s.id == self.id,
    {
        StateAccess { id: self.id, phantom: PhantomData }
    }

    /// Stores `value` for this handle's identity; see [`Store::set_state`].
    pub fn set(&self, store: &mut Store, pool: &mut Pool<T>, value: T)
        requires
            old(store).wf(),
        ensures
            set_post(*old(store), *old(pool), *final(store), *final(pool), self.id, value),
    {
        store.set_state(pool, self.id, value);
    }

    /// Removes this handle's stored value; see [`Store::remove_state`].
    pub fn remove(&self, store: &mut Store, pool: &mut Pool<T>) -> (r: Option<T>)
        requires
            old(store).wf(),
        ensures
            remove_post(*old(store), *old(pool), *final(store), *final(pool), self.id, r),
    {
        store.remove_state(pool, self.id)
    }

    /// Replaces this handle's stored value by `func` applied to it; the value
    /// must be present. See [`Store::update_state`].
    pub fn update<F: FnOnce(T) -> T>(&self, store: &mut Store, pool: &mut Pool<T>, func: F)
        requires
            old(store).wf(),
            old(store).state_of(*old(pool), self.id).is_some(),
            call_requires(func, (old(store).state_of(*old(pool), self.id).unwrap(),)),
        ensures
            update_post(*old(store), *old(pool), *final(store), *final(pool), self.id, func),
    {
        store.update_state(pool, self.id, func);
    }

    /// Whether a value is stored for this handle; see [`Store::state_exists`].
    pub fn state_exists(&self, store: &mut Store, pool: &Pool<T>) -> (r: bool)
        requires
            old(store).wf(),
        ensures
            r == old(store).state_of(*pool, self.id).is_some(),
            old(store).live(self.id) ==> touched(*old(store), *final(store), self.id),
            !old(store).live(self.id) ==> *final(store) == *old(store),
    {
        store.state_exists(pool, self.id)
    }

    /// Applies `func` to a borrow of this handle's stored value, which must
    /// be present; see [`Store::read_state`].
    pub fn get_with<R, F: FnOnce(&T) -> R>(&self, store: &mut Store, pool: &Pool<T>, func: F) -> (r:
        R)
        requires
            old(store).wf(),
            old(store).state_of(*pool, self.id).is_some(),
            call_requires(func, (&old(store).state_of(*pool, self.id).unwrap(),)),
        ensures
            touched(*old(store), *final(store), self.id),
            call_ensures(func, (&old(store).state_of(*pool, self.id).unwrap(),), r),
    {
        store.read_state(pool, self.id, func)
    }
}

/// Read access for handles whose stored type can be duplicated.
pub trait CloneState<T: Clone + 'static>: Sized {
    /// The identity the handle stands for.
    spec fn access_id(&self) -> TopoId;

    /// A clone of the stored value, which must be present: for call sites
    /// that have already guaranteed initialization.
    fn get(&self, store: &mut Store, pool: &Pool<T>) -> (r: T)
        requires
            old(store).wf(),
            old(store).state_of(*pool, self.access_id()).is_some(),
        ensures
            touched(*old(store), *final(store), self.access_id()),
            cloned::<T>(old(store).state_of(*pool, self.access_id()).unwrap(), r),
    ;

    /// A clone of the stored value, or `None` if nothing is stored.
    fn soft_get(&self, store: &mut Store, pool: &Pool<T>) -> (r: Option<T>)
        requires
            old(store).wf(),
        ensures
            touched(*old(store), *final(store), self.access_id()),
            r.is_some() == old(store).state_of(*pool, self.access_id()).is_some(),
            r matches Some(v) ==> (old(store).state_of(*pool, self.access_id()) matches Some(w)
                && cloned::<T>(w, v)),
    ;
}

impl<T: Clone + 'static> CloneState<T> for StateAccess<T> {
    open spec fn access_id(&self) -> TopoId {
        self.id
    }

    fn get(&self, store: &mut Store, pool: &Pool<T>) -> (r: T) {
        store.hard_get(pool, self.id)
    }

    fn soft_get(&self, store: &mut Store, pool: &Pool<T>) -> (r: Option<T>) {
        store.clone_state(pool, self.id)
    }
}

/// Operations on a handle to an unmount callback.
pub trait StateAccessDropType<F: Fn() -> ()>: Sized {
    /// The identity the handle stands for.
    spec fn unmount_id(&self) -> TopoId;

    /// Re-arms the stored callback, which must be present.
    fn activate(&self, store: &mut Store, pool: &mut Pool<DropType<F>>)
        requires
            old(store).wf(),
            old(store).state_of(*old(pool), self.unmount_id()).is_some(),
        ensures
            final(store).wf(),
            final(store).state_of(*final(pool), self.unmount_id()).is_some(),
            final(store).state_of(*final(pool), self.unmount_id()).unwrap().activated,
            final(store).state_of(*final(pool), self.unmount_id()).unwrap().on_drop == old(
                store,
            ).state_of(*old(pool), self.unmount_id()).unwrap().on_drop,
    ;

    /// Disarms the stored callback, which must be present.
    fn deactivate(&self, store: &mut Store, pool: &mut Pool<DropType<F>>)
        requires
            old(store).wf(),
            old(store).state_of(*old(pool), self.unmount_id()).is_some(),
        ensures
            final(store).wf(),
            final(store).state_of(*final(pool), self.unmount_id()).is_some(),
            !final(store).state_of(*final(pool), self.unmount_id()).unwrap().activated,
            final(store).state_of(*final(pool), self.unmount_id()).unwrap().on_drop == old(
                store,
            ).state_of(*old(pool), self.unmount_id()).unwrap().on_drop,
    ;

    /// Runs the stored callback if it is armed, then removes it. The callback
    /// must be present and callable.
    fn execute_and_remove(&self, store: &mut Store, pool: &mut Pool<DropType<F>>)
        requires
            old(store).wf(),
            old(store).state_of(*old(pool), self.unmount_id()).is_some(),
            old(store).state_of(*old(pool), self.unmount_id()).unwrap().wf(),
        ensures
            final(store).wf(),
            final(store).state_of(*final(pool), self.unmount_id()) == None::<DropType<F>>,
    ;
}

impl<F: Fn() -> ()> StateAccessDropType<F> for StateAccess<DropType<F>> {
    open spec fn unmount_id(&self) -> TopoId {
        self.id
    }

    fn activate(&self, store: &mut Store, pool: &mut Pool<DropType<F>>) {
        let arm = (|dt: DropType<F>| -> (r: DropType<F>)
            ensures
                r.activated && r.on_drop == dt.on_drop,
            {
                let mut d = dt;
                d.activate();
                d
            });
        store.update_state(pool, self.id, arm);
    }

    fn deactivate(&self, store: &mut Store, pool: &mut Pool<DropType<F>>) {
        let disarm = (|dt: DropType<F>| -> (r: DropType<F>)
            ensures
                !r.activated && r.on_drop == dt.on_drop,
            {
                let mut d = dt;
                d.deactivate();
                d
            });
        store.update_state(pool, self.id, disarm);
    }

    fn execute_and_remove(&self, store: &mut Store, pool: &mut Pool<DropType<F>>) {
        let run = (|dt: &DropType<F>|
            requires
                dt.wf(),
            {
                dt.execute_if_activated();
            });
        store.read_state(pool, self.id, run);
        store.remove_state(pool, self.id);
    }
}

} // verus!

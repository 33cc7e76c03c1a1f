//! The type pool registry: one [`Pool`] per stored type, keyed by the type
//! itself.
//!
//! The backing map is type-erased, so the verifier can state nothing about
//! which pools it holds or what they contain: the registry is trusted only to
//! hand pools in and out, and every guarantee about stored values is proved
//! over a single, explicitly held [`Pool`]. A store operation that goes
//! through the registry therefore carries an exact contract for the arena and
//! the liveness tracker, but not for the pool contents it routes.

use vstd::prelude::*;
use crate::pool::Pool;

verus! {

/// Type-indexed collection of pools, backed by `anymap::Map`.
#[verifier::external_body]
pub struct PoolRegistry {
    inner: anymap::Map<dyn anymap::any::Any>,
}

impl PoolRegistry {
    /// Relies on `anymap::Map::new`: an empty type-indexed map.
    #[verifier::external_body]
    pub(crate) fn new() -> PoolRegistry {
        PoolRegistry { inner: anymap::Map::new() }
    }

    /// Relies on `anymap::Map::remove`: removes and returns the value the map
    /// holds for the type `Pool<T>`, if there is one.
    #[verifier::external_body]
    pub(crate) fn take_pool<T: 'static>(&mut self) -> Option<Pool<T>> {
        self.inner.remove::<Pool<T>>()
    }

    /// Relies on `anymap::Map::insert`: stores `pool` for the type `Pool<T>`,
    /// replacing any pool previously stored for that type.
    #[verifier::external_body]
    pub(crate) fn put_pool<T: 'static>(&mut self, pool: Pool<T>) {
        self.inner.insert::<Pool<T>>(pool);
    }

    /// Relies on `anymap::Map::get`: a reference to the pool the map holds
    /// for the type `Pool<T>`, if there is one.
    #[verifier::external_body]
    pub(crate) fn pool_ref<T: 'static>(&self) -> Option<&Pool<T>> {
        self.inner.get::<Pool<T>>()
    }
}

} // verus!

//! Per-call-site persistent state for repeatedly re-invoked function trees.
//!
//! A [`store::Store`] keeps one generational arena slot per identity token
//! and, for every stored type, a [`pool::Pool`] mapping slots to values of
//! that type. Every operation that touches an identity marks it seen; a
//! mark-and-sweep cycle ([`state_functions`]) reclaims the slots of
//! identities not touched between two sweeps. [`state_access::StateAccess`]
//! is the typed capability through which call sites reach their own cell.

pub mod arena;
pub mod drop_type;
pub mod laws;
pub mod pool;
pub mod prelude;
pub mod registry;
pub mod state_access;
pub mod state_functions;
pub mod store;

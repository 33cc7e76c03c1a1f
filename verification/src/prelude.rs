//! One import for the store's whole public surface: the identity and key
//! types, the store and pools, the access handles, and the sweep cycle.

pub use crate::arena::{Arena, Slot, SlotKey, TopoId};
pub use crate::drop_type::DropType;
pub use crate::pool::{Pool, PoolEntry};
pub use crate::registry::PoolRegistry;
pub use crate::state_access::{CloneState, StateAccess, StateAccessDropType};
pub use crate::state_functions::{
    clone_state_with_topo_id, execute_and_remove_unmounts, mark_id_as_active,
    purge_and_reset_unseen_ids, purge_unseen_ids, read_state_with_topo_id,
    remove_state_with_topo_id, reset_unseen_id_list, set_state_with_topo_id,
    state_exists_for_topo_id, unseen_ids, update_state_with_topo_id,
};
pub use crate::store::Store;

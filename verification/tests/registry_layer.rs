//! The same contract exercised through the type-indexed registry: no pool in
//! hand, the store routes each call by the stored type.

use comp_state::arena::TopoId;
use comp_state::state_functions::{
    clone_state_with_topo_id, purge_and_reset_unseen_ids, read_state_with_topo_id,
    remove_state_with_topo_id, reset_unseen_id_list, set_state_with_topo_id,
    state_exists_for_topo_id, update_state_with_topo_id,
};
use comp_state::store::Store;

#[test]
fn registry_set_then_clone() {
    let mut store = Store::new();
    let a = TopoId(1);
    set_state_with_topo_id(&mut store, 41i32, a);
    assert_eq!(clone_state_with_topo_id::<i32>(&mut store, a), Some(41));
}

#[test]
fn registry_distinct_types_do_not_interfere() {
    let mut store = Store::new();
    let a = TopoId(2);
    set_state_with_topo_id(&mut store, 5i32, a);
    set_state_with_topo_id(&mut store, String::from("x"), a);
    assert_eq!(clone_state_with_topo_id::<i32>(&mut store, a), Some(5));
    assert_eq!(clone_state_with_topo_id::<String>(&mut store, a), Some(String::from("x")));
}

#[test]
fn registry_exists_and_remove() {
    let mut store = Store::new();
    let a = TopoId(3);
    assert!(!state_exists_for_topo_id::<i32>(&mut store, a));
    set_state_with_topo_id(&mut store, 1i32, a);
    assert!(state_exists_for_topo_id::<i32>(&mut store, a));
    assert_eq!(remove_state_with_topo_id::<i32>(&mut store, a), Some(1));
    assert!(!state_exists_for_topo_id::<i32>(&mut store, a));
    assert_eq!(remove_state_with_topo_id::<i32>(&mut store, a), None);
}

#[test]
fn registry_update_and_read() {
    let mut store = Store::new();
    let a = TopoId(4);
    set_state_with_topo_id(&mut store, 10i32, a);
    let updated = update_state_with_topo_id(&mut store, a, |v: i32| v + 1);
    assert!(updated);
    let read = read_state_with_topo_id(&mut store, a, |v: &i32| *v * 2);
    assert_eq!(read, Some(22));
    assert_eq!(clone_state_with_topo_id::<i32>(&mut store, a), Some(11));
}

#[test]
fn registry_update_of_missing_state_reports_false() {
    let mut store = Store::new();
    let a = TopoId(5);
    assert!(!update_state_with_topo_id(&mut store, a, |v: i32| v + 1));
    assert_eq!(read_state_with_topo_id(&mut store, a, |v: &i32| *v), None);
}

#[test]
fn registry_sweep_reclaims_untouched() {
    let mut store = Store::new();
    let a = TopoId(6);
    let b = TopoId(7);
    set_state_with_topo_id(&mut store, 1i32, a);
    set_state_with_topo_id(&mut store, 2i32, b);
    reset_unseen_id_list(&mut store);
    set_state_with_topo_id(&mut store, 3i32, a); // touches A
    purge_and_reset_unseen_ids(&mut store);
    assert_eq!(clone_state_with_topo_id::<i32>(&mut store, a), Some(3));
    assert_eq!(clone_state_with_topo_id::<i32>(&mut store, b), None);
    assert!(!state_exists_for_topo_id::<i32>(&mut store, b));
}

#[test]
fn register_secondarymap_provides_empty_pool() {
    let mut store = Store::new();
    let a = TopoId(8);
    store.register_secondarymap::<i32>();
    assert!(!state_exists_for_topo_id::<i32>(&mut store, a));
    set_state_with_topo_id(&mut store, 4i32, a);
    assert!(store.state_exists_with_topo_id::<i32>(a));
    assert_eq!(store.get_state_with_topo_id::<i32>(a), Some(4));
    assert_eq!(store.remove_state_with_topo_id::<i32>(a), Some(4));
}

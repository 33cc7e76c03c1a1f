use std::cell::Cell;
use std::rc::Rc;

use comp_state::arena::TopoId;
use comp_state::drop_type::DropType;
use comp_state::pool::Pool;
use comp_state::state_access::{StateAccess, StateAccessDropType};
use comp_state::state_functions::{
    execute_and_remove_unmounts, mark_id_as_active, purge_and_reset_unseen_ids, purge_unseen_ids,
    reset_unseen_id_list, unseen_ids,
};
use comp_state::store::Store;

#[test]
fn touched_identity_survives_sweep() {
    let mut store = Store::new();
    let mut pool: Pool<i32> = Pool::new();
    let a = TopoId(1);
    store.set_state(&mut pool, a, 42);
    reset_unseen_id_list(&mut store);
    let touched = store.clone_state(&pool, a);
    assert_eq!(touched, Some(42));
    purge_and_reset_unseen_ids(&mut store);
    assert!(store.state_exists(&pool, a));
    assert_eq!(store.clone_state(&pool, a), Some(42));
}

#[test]
fn untouched_identity_is_reclaimed() {
    let mut store = Store::new();
    let mut ints: Pool<i32> = Pool::new();
    let mut strings: Pool<String> = Pool::new();
    let b = TopoId(2);
    store.set_state(&mut ints, b, 7);
    store.set_state(&mut strings, b, String::from("gone"));
    reset_unseen_id_list(&mut store);
    purge_and_reset_unseen_ids(&mut store);
    assert!(!store.state_exists(&ints, b));
    assert!(!store.state_exists(&strings, b));
    assert_eq!(store.clone_state(&ints, b), None);
    assert_eq!(store.clone_state(&strings, b), None);
}

#[test]
fn mark_id_as_active_keeps_identity_alive() {
    let mut store = Store::new();
    let mut pool: Pool<i32> = Pool::new();
    let a = TopoId(3);
    store.set_state(&mut pool, a, 1);
    reset_unseen_id_list(&mut store);
    mark_id_as_active(&mut store, a);
    purge_and_reset_unseen_ids(&mut store);
    assert_eq!(store.clone_state(&pool, a), Some(1));
}

#[test]
fn unseen_ids_reports_candidates() {
    let mut store = Store::new();
    let mut pool: Pool<i32> = Pool::new();
    let a = TopoId(4);
    let b = TopoId(5);
    store.set_state(&mut pool, a, 1);
    store.set_state(&mut pool, b, 2);
    reset_unseen_id_list(&mut store);
    let mut candidates = unseen_ids(&store);
    candidates.sort_by_key(|id| id.0);
    assert_eq!(candidates, vec![a, b]);
    mark_id_as_active(&mut store, a);
    assert_eq!(unseen_ids(&store), vec![b]);
}

#[test]
fn purge_without_reseed_keeps_candidate_list() {
    let mut store = Store::new();
    let mut pool: Pool<i32> = Pool::new();
    let b = TopoId(6);
    store.set_state(&mut pool, b, 0);
    reset_unseen_id_list(&mut store);
    purge_unseen_ids(&mut store);
    assert!(!store.state_exists(&pool, b));
    assert_eq!(unseen_ids(&store), vec![b]);
    reset_unseen_id_list(&mut store);
    assert_eq!(unseen_ids(&store), vec![]);
}

#[test]
fn stale_slot_never_resolves_to_new_occupant() {
    let mut store = Store::new();
    let mut pool: Pool<i32> = Pool::new();
    let b = TopoId(7);
    store.set_state(&mut pool, b, 1);
    let old_key = store.arena.lookup(b).unwrap();
    reset_unseen_id_list(&mut store);
    purge_and_reset_unseen_ids(&mut store);

    // A new identity is allocated; the freed index is reused with a bumped
    // generation.
    let c = TopoId(8);
    store.set_state(&mut pool, c, 99);
    let new_key = store.arena.lookup(c).unwrap();
    assert_eq!(new_key.index, old_key.index);
    assert_ne!(new_key.generation, old_key.generation);

    // The swept identity and its old key resolve to nothing, never to the
    // new occupant's data.
    assert_eq!(store.clone_state(&pool, b), None);
    assert!(!store.state_exists(&pool, b));
    assert_eq!(pool.get(old_key), None);
    assert_eq!(store.clone_state(&pool, c), Some(99));
}

#[test]
fn end_to_end_scenario() {
    let mut store = Store::new();
    let mut pool: Pool<i32> = Pool::new();
    let a = TopoId(10);
    let b = TopoId(11);
    store.set_state(&mut pool, a, 1);
    store.set_state(&mut pool, b, 100);
    reset_unseen_id_list(&mut store);
    store.set_state(&mut pool, a, 2); // touches A; B stays unseen
    purge_and_reset_unseen_ids(&mut store);
    assert_eq!(store.clone_state(&pool, a), Some(2));
    assert!(!store.state_exists(&pool, b));
    assert_eq!(store.clone_state(&pool, b), None);
}

#[test]
fn drop_type_runs_only_when_activated() {
    let count = Rc::new(Cell::new(0u32));
    let c = Rc::clone(&count);
    let mut dt = DropType::new(move || c.set(c.get() + 1));
    dt.execute_if_activated();
    assert_eq!(count.get(), 1);
    dt.deactivate();
    dt.execute_if_activated();
    assert_eq!(count.get(), 1);
    dt.activate();
    dt.execute_if_activated();
    assert_eq!(count.get(), 2);
}

#[test]
fn unmount_handle_executes_and_removes() {
    let mut store = Store::new();
    let mut unmounts = Pool::new();
    let count = Rc::new(Cell::new(0u32));
    let c = Rc::clone(&count);
    let a = TopoId(20);
    store.set_state(&mut unmounts, a, DropType::new(move || c.set(c.get() + 1)));
    let access = StateAccess::new(a);
    access.deactivate(&mut store, &mut unmounts);
    access.activate(&mut store, &mut unmounts);
    access.execute_and_remove(&mut store, &mut unmounts);
    assert_eq!(count.get(), 1);
    assert!(!store.state_exists(&unmounts, a));
}

#[test]
fn unmounts_of_unseen_identities_run_at_sweep_time() {
    let mut store = Store::new();
    let mut unmounts = Pool::new();
    let count = Rc::new(Cell::new(0u32));
    let touched_id = TopoId(30);
    let swept_id = TopoId(31);
    let mk = |c: Rc<Cell<u32>>, amount: u32| move || c.set(c.get() + amount);
    store.set_state(&mut unmounts, touched_id, DropType::new(mk(Rc::clone(&count), 1)));
    store.set_state(&mut unmounts, swept_id, DropType::new(mk(Rc::clone(&count), 10)));
    reset_unseen_id_list(&mut store);
    mark_id_as_active(&mut store, touched_id);
    execute_and_remove_unmounts(&store, &mut unmounts);
    // Only the identity about to be swept had its callback run and removed.
    assert_eq!(count.get(), 10);
    assert!(!store.state_exists(&unmounts, swept_id));
    assert!(store.state_exists(&unmounts, touched_id));
    purge_and_reset_unseen_ids(&mut store);
    assert!(store.state_exists(&unmounts, touched_id));
}

use comp_state::arena::TopoId;
use comp_state::pool::Pool;
use comp_state::state_access::{CloneState, StateAccess};
use comp_state::store::Store;

#[test]
fn it_works() {
    assert_eq!(2 + 3, 5);
}

#[test]
fn set_then_get_clone_returns_value() {
    let mut store = Store::new();
    let mut pool: Pool<i32> = Pool::new();
    let a = TopoId(1);
    store.set_state(&mut pool, a, 41);
    assert_eq!(store.clone_state(&pool, a), Some(41));
}

#[test]
fn set_then_get_clone_string() {
    let mut store = Store::new();
    let mut pool: Pool<String> = Pool::new();
    let a = TopoId(7);
    store.set_state(&mut pool, a, String::from("hello"));
    assert_eq!(store.clone_state(&pool, a), Some(String::from("hello")));
}

#[test]
fn set_overwrites_previous_value() {
    let mut store = Store::new();
    let mut pool: Pool<i32> = Pool::new();
    let a = TopoId(1);
    store.set_state(&mut pool, a, 1);
    store.set_state(&mut pool, a, 2);
    assert_eq!(store.clone_state(&pool, a), Some(2));
}

#[test]
fn update_applies_mutator() {
    let mut store = Store::new();
    let mut pool: Pool<i32> = Pool::new();
    let a = TopoId(3);
    store.set_state(&mut pool, a, 10);
    store.update_state(&mut pool, a, |v| v + 5);
    assert_eq!(store.clone_state(&pool, a), Some(15));
}

#[test]
fn exists_follows_set_and_remove() {
    let mut store = Store::new();
    let mut pool: Pool<i32> = Pool::new();
    let a = TopoId(4);
    assert!(!store.state_exists(&pool, a));
    store.set_state(&mut pool, a, 0);
    assert!(store.state_exists(&pool, a));
    let removed = store.remove_state(&mut pool, a);
    assert_eq!(removed, Some(0));
    assert!(!store.state_exists(&pool, a));
}

#[test]
fn distinct_types_do_not_interfere() {
    let mut store = Store::new();
    let mut ints: Pool<i32> = Pool::new();
    let mut strings: Pool<String> = Pool::new();
    let a = TopoId(5);
    store.set_state(&mut ints, a, 5);
    store.set_state(&mut strings, a, String::from("x"));
    assert_eq!(store.clone_state(&ints, a), Some(5));
    assert_eq!(store.clone_state(&strings, a), Some(String::from("x")));
}

#[test]
fn remove_leaves_other_types_in_place() {
    let mut store = Store::new();
    let mut ints: Pool<i32> = Pool::new();
    let mut strings: Pool<String> = Pool::new();
    let a = TopoId(6);
    store.set_state(&mut ints, a, 9);
    store.set_state(&mut strings, a, String::from("kept"));
    assert_eq!(store.remove_state(&mut ints, a), Some(9));
    assert_eq!(store.clone_state(&ints, a), None);
    assert_eq!(store.clone_state(&strings, a), Some(String::from("kept")));
}

#[test]
fn hard_get_returns_present_value() {
    let mut store = Store::new();
    let mut pool: Pool<i32> = Pool::new();
    let a = TopoId(8);
    store.set_state(&mut pool, a, 123);
    assert_eq!(store.hard_get(&pool, a), 123);
}

#[test]
fn read_state_borrows_without_cloning() {
    let mut store = Store::new();
    let mut pool: Pool<String> = Pool::new();
    let a = TopoId(9);
    store.set_state(&mut pool, a, String::from("borrowed"));
    let len = store.read_state(&pool, a, |s| s.len());
    assert_eq!(len, 8);
    assert_eq!(store.clone_state(&pool, a), Some(String::from("borrowed")));
}

#[test]
fn clone_state_of_missing_pair_is_none() {
    let mut store = Store::new();
    let pool: Pool<i32> = Pool::new();
    assert_eq!(store.clone_state(&pool, TopoId(100)), None);
}

#[test]
fn state_access_handle_round_trip() {
    let mut store = Store::new();
    let mut pool: Pool<i32> = Pool::new();
    let access: StateAccess<i32> = StateAccess::new(TopoId(10));
    access.set(&mut store, &mut pool, 77);
    assert!(access.state_exists(&mut store, &pool));
    assert_eq!(access.soft_get(&mut store, &pool), Some(77));
    assert_eq!(access.get(&mut store, &pool), 77);
    access.update(&mut store, &mut pool, |v| v * 2);
    assert_eq!(access.get(&mut store, &pool), 154);
    let doubled = access.get_with(&mut store, &pool, |v| v + 1);
    assert_eq!(doubled, 155);
    assert_eq!(access.remove(&mut store, &mut pool), Some(154));
    assert_eq!(access.soft_get(&mut store, &pool), None);
    let copy = access.duplicate();
    assert_eq!(copy.id, access.id);
}

#[test]
fn pool_respects_key_generations() {
    let mut pool: Pool<i32> = Pool::new();
    let k0 = comp_state::arena::SlotKey { index: 0, generation: 0 };
    let k1 = comp_state::arena::SlotKey { index: 0, generation: 1 };
    pool.set(k0, 11);
    assert!(pool.contains(k0));
    assert!(!pool.contains(k1));
    assert_eq!(pool.get(k0).copied(), Some(11));
    assert_eq!(pool.get(k1).copied(), None);
    pool.set(k1, 22);
    assert_eq!(pool.get(k0).copied(), None);
    assert_eq!(pool.take(k1), Some(22));
    assert_eq!(pool.take(k1), None);
}

#[test]
fn exists_never_allocates_a_slot() {
    let mut store = Store::new();
    let pool: Pool<i32> = Pool::new();
    let a = TopoId(50);
    assert!(!store.state_exists(&pool, a));
    // Probing an unknown identity must not have allocated a slot for it.
    assert_eq!(store.arena.lookup(a), None);
}

#[test]
fn exists_on_present_slot_counts_as_touch() {
    let mut store = Store::new();
    let mut pool: Pool<i32> = Pool::new();
    let a = TopoId(51);
    store.set_state(&mut pool, a, 1);
    comp_state::state_functions::reset_unseen_id_list(&mut store);
    assert!(store.state_exists(&pool, a)); // probing is evidence of liveness
    comp_state::state_functions::purge_and_reset_unseen_ids(&mut store);
    assert_eq!(store.clone_state(&pool, a), Some(1));
}

#[test]
fn arena_allocate_is_idempotent() {
    let mut arena = comp_state::arena::Arena::new();
    let a = TopoId(1);
    let k1 = arena.allocate(a);
    let k2 = arena.allocate(a);
    assert_eq!(k1, k2);
    assert_eq!(arena.lookup(a), Some(k1));
    arena.deallocate(a);
    assert_eq!(arena.lookup(a), None);
    let k3 = arena.allocate(a);
    assert_ne!(k1, k3);
}

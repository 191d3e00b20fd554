use safe_any_map::erased::type_tag;
use safe_any_map::erased::Erased;
use safe_any_map::registry::Registry;
use safe_any_map::store::Store;
use std::any::TypeId;

#[test]
fn type_tag_is_the_type_identifier() {
    assert_eq!(type_tag::<i32>(), TypeId::of::<i32>());
    assert_eq!(type_tag::<String>(), TypeId::of::<String>());
    assert_ne!(type_tag::<i32>(), type_tag::<u32>());
}

#[test]
fn handle_knows_its_type() {
    let handle = Erased::new(5i32);
    assert!(handle.is::<i32>());
    assert!(!handle.is::<u32>());
    assert!(!handle.is::<String>());
}

#[test]
fn handle_downcast_ref_is_gated_by_type() {
    let handle = Erased::new(String::from("text"));
    assert_eq!(handle.downcast_ref::<String>(), Some(&String::from("text")));
    assert_eq!(handle.downcast_ref::<i32>(), None);
}

#[test]
fn handle_downcast_mut_writes_through() {
    let mut handle = Erased::new(1u64);
    assert!(handle.downcast_mut::<i64>().is_none());
    *handle.downcast_mut::<u64>().unwrap() = 40;
    assert_eq!(handle.downcast_ref::<u64>(), Some(&40));
    assert!(handle.is::<u64>());
}

#[test]
fn handle_downcast_moves_the_value_out() {
    let handle = Erased::new(vec![1u8, 2, 3]);
    match handle.downcast::<Vec<u8>>() {
        Ok(value) => assert_eq!(*value, vec![1u8, 2, 3]),
        Err(_) => panic!("the handle holds a Vec<u8>"),
    }
}

#[test]
fn handle_failed_downcast_hands_the_handle_back() {
    let handle = Erased::new(7u8);
    match handle.downcast::<String>() {
        Ok(_) => panic!("the handle holds no String"),
        Err(back) => assert_eq!(back.downcast_ref::<u8>(), Some(&7)),
    }
}

#[test]
fn registry_establishes_then_checks() {
    let mut registry: Registry<String> = Registry::new();
    let key = String::from("k");
    assert_eq!(registry.lookup(&key), None);
    assert!(registry.establish_or_check(&key, TypeId::of::<i32>()));
    assert_eq!(registry.lookup(&key), Some(TypeId::of::<i32>()));
    assert!(registry.establish_or_check(&key, TypeId::of::<i32>()));
    assert!(!registry.establish_or_check(&key, TypeId::of::<u8>()));
    assert_eq!(registry.lookup(&key), Some(TypeId::of::<i32>()));
    assert_eq!(registry.lookup(&String::from("other")), None);
}

#[test]
fn registry_clear_unbinds_the_key() {
    let mut registry: Registry<u32> = Registry::new();
    assert!(registry.establish_or_check(&1, TypeId::of::<i32>()));
    assert!(registry.establish_or_check(&2, TypeId::of::<bool>()));
    registry.clear(&1);
    assert_eq!(registry.lookup(&1), None);
    assert_eq!(registry.lookup(&2), Some(TypeId::of::<bool>()));
    assert!(registry.establish_or_check(&1, TypeId::of::<String>()));
    assert_eq!(registry.lookup(&1), Some(TypeId::of::<String>()));
    registry.clear(&9);
    assert_eq!(registry.lookup(&2), Some(TypeId::of::<bool>()));
}

#[test]
fn store_returns_the_prior_handle() {
    let mut store: Store<u32> = Store::new();
    assert!(!store.contains(&1));
    assert!(store.store(1, Erased::new(5i32)).is_none());
    assert!(store.contains(&1));
    let prior = store.store(1, Erased::new(6i32));
    assert_eq!(prior.and_then(|h| h.downcast_ref::<i32>().copied()), Some(5));
    assert_eq!(store.peek(&1).and_then(|h| h.downcast_ref::<i32>()), Some(&6));
    assert!(store.peek(&2).is_none());
}

#[test]
fn store_peek_mut_reaches_the_stored_handle() {
    let mut store: Store<u32> = Store::new();
    assert!(store.store(1, Erased::new(5i32)).is_none());
    assert!(store.peek_mut(&2).is_none());
    *store.peek_mut(&1).unwrap().downcast_mut::<i32>().unwrap() = 50;
    assert_eq!(store.peek(&1).and_then(|h| h.downcast_ref::<i32>()), Some(&50));
}

#[test]
fn store_take_removes_the_handle() {
    let mut store: Store<u32> = Store::new();
    assert!(store.store(1, Erased::new(String::from("a"))).is_none());
    assert!(store.store(2, Erased::new(String::from("b"))).is_none());
    assert!(store.take(&3).is_none());
    let taken = store.take(&1).unwrap();
    assert_eq!(taken.downcast_ref::<String>(), Some(&String::from("a")));
    assert!(!store.contains(&1));
    assert!(store.take(&1).is_none());
    assert!(store.contains(&2));
    let keys: Vec<u32> = store.keys().copied().collect();
    assert_eq!(keys, vec![2]);
    assert_eq!(store.values().count(), 1);
}

use safe_any_map::map::SafeAnyMap;
use safe_any_map::map::SafeAnyMapError;
use std::cell::Cell;
use std::hash::Hash;
use std::hash::Hasher;
use std::rc::Rc;

struct Counted {
    id: u32,
    drops: Rc<Cell<u32>>,
}

impl Hash for Counted {
    fn hash<H: Hasher>(&self, state: &mut H) {
        self.id.hash(state);
    }
}

impl Drop for Counted {
    fn drop(&mut self) {
        self.drops.set(self.drops.get() + 1);
    }
}

fn counted(id: u32, drops: &Rc<Cell<u32>>) -> Counted {
    Counted { id, drops: Rc::clone(drops) }
}

#[test]
fn removed_value_is_dropped_once_by_its_new_owner() {
    let drops = Rc::new(Cell::new(0));
    let mut m: SafeAnyMap<u32> = SafeAnyMap::new();
    assert!(matches!(m.insert(1, counted(1, &drops), "Counted"), Ok(None)));
    assert_eq!(drops.get(), 0);
    let taken = m.remove::<Counted>(&1);
    assert_eq!(drops.get(), 0);
    assert_eq!(taken.as_ref().map(|c| c.id), Some(1));
    drop(taken);
    assert_eq!(drops.get(), 1);
    drop(m);
    assert_eq!(drops.get(), 1);
}

#[test]
fn replaced_value_is_dropped_once() {
    let drops = Rc::new(Cell::new(0));
    let mut m: SafeAnyMap<u32> = SafeAnyMap::new_double_inserts();
    assert!(matches!(m.insert(1, counted(1, &drops), "Counted"), Ok(None)));
    let previous = m.insert(1, counted(2, &drops), "Counted");
    assert_eq!(drops.get(), 0);
    match previous {
        Ok(Some(value)) => assert_eq!(value.id, 1),
        other => panic!("unexpected result: {:?}", other.map(|p| p.map(|c| c.id))),
    }
    assert_eq!(drops.get(), 1);
    drop(m);
    assert_eq!(drops.get(), 2);
}

#[test]
fn teardown_drops_every_remaining_value_once() {
    let drops = Rc::new(Cell::new(0));
    let mut m: SafeAnyMap<u32> = SafeAnyMap::new();
    for id in 0..5 {
        assert!(matches!(m.insert(id, counted(id, &drops), "Counted"), Ok(None)));
    }
    assert_eq!(m.remove::<Counted>(&2).map(|c| c.id), Some(2));
    assert_eq!(drops.get(), 1);
    drop(m);
    assert_eq!(drops.get(), 5);
}

#[test]
fn refused_value_is_dropped_once_and_stored_value_is_kept() {
    let drops = Rc::new(Cell::new(0));
    let mut m: SafeAnyMap<u32> = SafeAnyMap::new();
    assert!(matches!(m.insert(1, counted(1, &drops), "Counted"), Ok(None)));
    assert!(matches!(
        m.insert(1, counted(2, &drops), "Counted"),
        Err(SafeAnyMapError::DoubleInsert)
    ));
    assert_eq!(drops.get(), 1);
    assert_eq!(m.get::<Counted>(&1).map(|c| c.id), Some(1));
    drop(m);
    assert_eq!(drops.get(), 2);
}

#[test]
fn value_refused_for_its_type_is_dropped_once() {
    let drops = Rc::new(Cell::new(0));
    let mut m: SafeAnyMap<u32> = SafeAnyMap::new_double_inserts();
    assert!(matches!(m.insert(1, 5i32, "i32"), Ok(None)));
    assert!(matches!(
        m.insert(1, counted(2, &drops), "Counted"),
        Err(SafeAnyMapError::ConflictingValueType { .. })
    ));
    assert_eq!(drops.get(), 1);
    drop(m);
    assert_eq!(drops.get(), 1);
}

use specs::{ComponentInfo, ComponentInfoTable};
use std::any::TypeId;

struct Position;
struct Velocity;

#[test]
fn component_info_new_records_type() {
    let info = ComponentInfo::new::<Position>("Position");
    assert_eq!(info.name, "Position");
    assert_eq!(info.type_id, TypeId::of::<Position>());
}

#[test]
fn register_then_get() {
    let mut table = ComponentInfoTable::new();
    assert!(table.get::<Position>().is_none());
    assert!(table.register::<Position>("Position").is_none());
    let got = table.get::<Position>().unwrap();
    assert_eq!(got.name, "Position");
    assert_eq!(got.type_id, TypeId::of::<Position>());
    assert!(table.get::<Velocity>().is_none());
    assert_eq!(table.id::<Velocity>(), TypeId::of::<Velocity>());
}

#[test]
fn register_twice_returns_previous() {
    let mut table = ComponentInfoTable::default();
    table.register::<Velocity>("first");
    let old = table.register::<Velocity>("second").unwrap();
    assert_eq!(old.name, "first");
    assert_eq!(table.get_by_id(TypeId::of::<Velocity>()).unwrap().name, "second");
    assert!(table.get_by_id(TypeId::of::<Position>()).is_none());
}

#[test]
fn insert_info_keys_by_type_id() {
    let mut table = ComponentInfoTable::new();
    let r = table.insert_info(ComponentInfo::new::<Position>("pos"));
    assert!(r.is_none());
    assert_eq!(table.get_by_id(TypeId::of::<Position>()).unwrap().name, "pos");
}

use lumina::runtime::store::{EntityStore, Instance};
use lumina::runtime::value::Value;

fn num(x: f64) -> Value {
    Value::Number(x.to_bits())
}

fn make_person(name: &str, age: f64) -> Instance {
    let mut inst = Instance::new("Person".to_string(), 2);
    inst.set(0, Value::Text(name.to_string()));
    inst.set(1, num(age));
    inst.commit();
    inst
}

#[test]
fn test_insert_and_get() {
    let mut store = EntityStore::new();
    store.insert("isaac".to_string(), make_person("Isaac", 26.0));
    let inst = store.get("isaac").unwrap();
    assert_eq!(inst.entity_name, "Person");
    assert_eq!(inst.get(0), Some(&Value::Text("Isaac".to_string())));
    assert_eq!(inst.get(1), Some(&num(26.0)));
}

#[test]
fn test_set_captures_prev() {
    let mut store = EntityStore::new();
    store.insert("isaac".to_string(), make_person("Isaac", 26.0));
    let inst = store.get_mut("isaac").unwrap();

    inst.set(1, num(27.0));

    assert_eq!(inst.get(1), Some(&num(27.0)));
    assert_eq!(inst.prev(1), Some(&num(26.0)));
}

#[test]
fn test_commit_syncs_prev() {
    let mut store = EntityStore::new();
    store.insert("isaac".to_string(), make_person("Isaac", 26.0));
    let inst = store.get_mut("isaac").unwrap();

    inst.set(1, num(27.0));
    inst.commit();

    assert_eq!(inst.get(1), Some(&num(27.0)));
    assert_eq!(inst.prev(1), Some(&num(27.0)));
}

#[test]
fn test_all_of_entity() {
    let mut store = EntityStore::new();
    store.insert("isaac".to_string(), make_person("Isaac", 26.0));
    store.insert("alice".to_string(), make_person("Alice", 30.0));

    let mut bike = Instance::new("Bike".to_string(), 1);
    bike.set(0, Value::Text("Trek".to_string()));
    store.insert("bike1".to_string(), bike);

    let people = store.all_of_entity("Person");
    assert_eq!(people.len(), 2);

    let bikes = store.all_of_entity("Bike");
    assert_eq!(bikes.len(), 1);
}

#[test]
fn new_instance_fields_are_unknown_at_version_one() {
    let inst = Instance::new("Sensor".to_string(), 3);
    assert_eq!(inst.version, 1);
    assert!(inst.source_node.is_none());
    assert_eq!(inst.get(2), Some(&Value::Unknown));
    assert_eq!(inst.prev(2), Some(&Value::Unknown));
    assert_eq!(inst.get(3), None);
}

#[test]
fn out_of_range_get_is_none() {
    let inst = make_person("Bob", 40.0);
    assert_eq!(inst.get(5), None);
    assert_eq!(inst.prev(5), None);
}

#[test]
fn remove_and_contains() {
    let mut store = EntityStore::new();
    store.insert("isaac".to_string(), make_person("Isaac", 26.0));
    assert!(store.contains("isaac"));
    let removed = store.remove("isaac");
    assert!(removed.is_some());
    assert!(!store.contains("isaac"));
    assert!(store.remove("isaac").is_none());
    assert!(store.get("isaac").is_none());
}

#[test]
fn insert_same_name_replaces() {
    let mut store = EntityStore::new();
    store.insert("x".to_string(), make_person("Old", 1.0));
    store.insert("x".to_string(), make_person("New", 2.0));
    assert_eq!(store.all().len(), 1);
    assert_eq!(store.get("x").unwrap().get(0), Some(&Value::Text("New".to_string())));
}

#[test]
fn instances_of_entity_in_insertion_order() {
    let mut store = EntityStore::new();
    store.insert("a".to_string(), make_person("A", 1.0));
    store.insert("b".to_string(), Instance::new("Bike".to_string(), 1));
    store.insert("c".to_string(), make_person("C", 3.0));
    assert_eq!(store.all_instances_of("Person"), vec!["a".to_string(), "c".to_string()]);
    assert_eq!(store.find_instance_of("Bike"), Some("b".to_string()));
    assert_eq!(store.find_instance_of("Car"), None);
}

#[test]
fn commit_all_syncs_every_instance() {
    let mut store = EntityStore::new();
    store.insert("a".to_string(), make_person("A", 1.0));
    store.insert("b".to_string(), make_person("B", 2.0));
    store.get_mut("a").unwrap().set(1, num(10.0));
    store.get_mut("b").unwrap().set(1, num(20.0));
    store.commit_all();
    assert_eq!(store.get("a").unwrap().prev(1), Some(&num(10.0)));
    assert_eq!(store.get("b").unwrap().prev(1), Some(&num(20.0)));
}

#[test]
fn commit_dirty_only_touches_named() {
    let mut store = EntityStore::new();
    store.insert("a".to_string(), make_person("A", 1.0));
    store.insert("b".to_string(), make_person("B", 2.0));
    store.get_mut("a").unwrap().set(1, num(10.0));
    store.get_mut("b").unwrap().set(1, num(20.0));
    store.commit_dirty(&vec!["a".to_string(), "missing".to_string()]);
    assert_eq!(store.get("a").unwrap().prev(1), Some(&num(10.0)));
    assert_eq!(store.get("b").unwrap().prev(1), Some(&num(2.0)));
}

#[test]
fn iter_fields_pairs_names_with_values() {
    let inst = make_person("Isaac", 26.0);
    let names = vec!["name".to_string(), "age".to_string()];
    let fields = inst.iter_fields(&names);
    assert_eq!(fields.len(), 2);
    assert_eq!(fields[0].0, "name");
    assert_eq!(fields[0].1, Value::Text("Isaac".to_string()));
    assert_eq!(fields[1].1, num(26.0));
}

#[test]
fn set_leaves_other_fields_and_counts_versions() {
    let mut inst = make_person("Isaac", 26.0);
    let v0 = inst.version;
    inst.set(1, num(30.0));
    assert_eq!(inst.get(0), Some(&Value::Text("Isaac".to_string())));
    assert_eq!(inst.version, v0 + 1);
    assert!(inst.source_node.is_none());
    inst.set(7, num(1.0));
    assert_eq!(inst.version, v0 + 1);
    assert_eq!(inst.get(7), None);
}

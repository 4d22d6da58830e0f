//! Tests of the store as the serializable face of the preferences.

use simple_preferences::Document;
use simple_preferences::PreferencesMap;
use simple_preferences::PreferencesRegistry;
use simple_preferences::TypePath;
use simple_preferences::Value;

fn tp(full: &str, short: &str) -> TypePath {
    TypePath::new(full.as_bytes().to_vec(), short.as_bytes().to_vec())
}

fn text(s: &str) -> Value {
    Value::Text(s.as_bytes().to_vec())
}

fn foo_value(field: i64, option: Option<i64>) -> Value {
    Value::Table(vec![
        (b"field".to_vec(), Value::Int(field)),
        (
            b"option".to_vec(),
            Value::List(match option {
                Some(v) => vec![Value::Int(v)],
                None => vec![],
            }),
        ),
    ])
}

fn foo_path() -> TypePath {
    tp("my_app::serializable_map::Foo", "Foo")
}

fn bar_path() -> TypePath {
    tp("my_app::serializable_map::Bar", "Bar")
}

fn ambiguous_bar_path() -> TypePath {
    tp("my_app::serializable_map::ambiguous::Bar", "Bar")
}

fn get_registry() -> PreferencesRegistry {
    let mut registry = PreferencesRegistry::new();
    registry.register(foo_path(), foo_value(0, None));
    registry.register(bar_path(), text(""));
    registry
}

fn table_get<'a>(v: &'a Value, name: &str) -> &'a Value {
    match v {
        Value::Table(fields) => fields
            .iter()
            .find(|f| f.0 == name.as_bytes())
            .map(|f| &f.1)
            .expect("field not present"),
        _ => panic!("not a table"),
    }
}

#[test]
fn serializable_map_test_sets_and_gets() {
    let registry = get_registry();
    let mut map = PreferencesMap::empty();
    map.set(&registry, &foo_path(), foo_value(4, Some(2)));

    let value = map.get(&registry, &foo_path()).unwrap();

    assert!(table_get(value, "field").deep_eq(&Value::Int(4)));
    assert!(table_get(value, "option").deep_eq(&Value::List(vec![Value::Int(2)])));
}

#[test]
fn serializable_map_test_sets_and_gets_with_ambiguous() {
    let mut registry = get_registry();
    registry.register(ambiguous_bar_path(), text(""));

    let mut map = PreferencesMap::empty();
    map.set(&registry, &bar_path(), text("Bar"));
    map.set(&registry, &ambiguous_bar_path(), text("ambiguousBar"));

    let bar = map.get(&registry, &bar_path()).unwrap();
    let ambiguous_bar = map.get(&registry, &ambiguous_bar_path()).unwrap();

    assert!(bar.deep_eq(&text("Bar")));
    assert!(ambiguous_bar.deep_eq(&text("ambiguousBar")));
}

#[test]
fn serializable_map_test_sets_dyn_and_gets() {
    let registry = get_registry();
    let mut map = PreferencesMap::empty();
    map.set_dyn(&registry, &foo_path(), foo_value(4, Some(2)));

    let value = map.get(&registry, &foo_path()).unwrap();

    assert!(table_get(value, "field").deep_eq(&Value::Int(4)));
    assert!(table_get(value, "option").deep_eq(&Value::List(vec![Value::Int(2)])));
}

#[test]
fn serializable_map_test_take() {
    let registry = get_registry();
    let mut map = PreferencesMap::empty();
    map.set(&registry, &bar_path(), text("H"));

    let taken_bar = map.take(&registry, &bar_path()).unwrap();
    assert!(taken_bar.deep_eq(&text("H")));

    assert!(map.get(&registry, &bar_path()).is_none());
    assert!(map.is_empty());
}

#[test]
fn test_partial_eq() {
    let registry = get_registry();
    let mut map_1 = PreferencesMap::empty();
    map_1.set(&registry, &bar_path(), text("reflect_partial_eq"));

    let mut map_2 = PreferencesMap::empty();
    map_2.set(&registry, &bar_path(), text("reflect_partial_eq"));

    assert!(map_1.deep_eq(&map_2));
}

#[test]
fn serializable_map_test_apply_from_reflect_converts_dynamic_values() {
    let registry = get_registry();
    let mut map = PreferencesMap::empty();
    let foo = foo_value(3, None);
    map.set_dyn(&registry, &foo_path(), foo);

    let stored = map.get(&registry, &foo_path()).unwrap();
    assert!(stored.deep_eq(&foo_value(3, None)));
}

#[test]
fn serializable_map_test_ser_empty() {
    let map = PreferencesMap::empty();
    let doc = simple_preferences::codec::serialize(&map);
    assert_eq!(doc.len(), 0);
}

#[test]
fn serializable_map_test_ser_foo() {
    let registry = get_registry();
    let mut map = PreferencesMap::empty();
    map.set(&registry, &foo_path(), foo_value(3, None));

    let doc = simple_preferences::codec::serialize(&map);
    assert_eq!(doc.len(), 1);
    assert_eq!(doc.entry_at(0).0, b"Foo".to_vec());
    assert!(doc.entry_at(0).1.deep_eq(&foo_value(3, None)));
}

#[test]
fn serializable_map_test_ser_bar() {
    let registry = get_registry();
    let mut map = PreferencesMap::empty();
    map.set(&registry, &bar_path(), text("Hello"));

    let doc = simple_preferences::codec::serialize(&map);
    assert_eq!(doc.len(), 1);
    assert_eq!(doc.entry_at(0).0, b"Bar".to_vec());
    assert!(doc.entry_at(0).1.deep_eq(&text("Hello")));
}

#[test]
fn serializable_map_test_ser_bar_with_ambiguous() {
    let mut registry = get_registry();
    registry.register(ambiguous_bar_path(), text(""));

    let mut map = PreferencesMap::empty();
    map.set(&registry, &bar_path(), text("Bar"));
    map.set(&registry, &ambiguous_bar_path(), text("ambiguousBar"));

    let doc = simple_preferences::codec::serialize(&map);
    assert_eq!(doc.len(), 2);
    assert_eq!(doc.entry_at(0).0, b"my_app::serializable_map::Bar".to_vec());
    assert!(doc.entry_at(0).1.deep_eq(&text("Bar")));
    assert_eq!(
        doc.entry_at(1).0,
        b"my_app::serializable_map::ambiguous::Bar".to_vec()
    );
    assert!(doc.entry_at(1).1.deep_eq(&text("ambiguousBar")));
}

#[test]
fn serializable_map_test_ser_foo_bar() {
    let registry = get_registry();
    let mut map = PreferencesMap::empty();
    map.set(&registry, &foo_path(), foo_value(3, None));
    map.set(&registry, &bar_path(), text("Hello"));

    let doc = simple_preferences::codec::serialize(&map);
    assert_eq!(doc.len(), 2);
    assert_eq!(doc.entry_at(0).0, b"Bar".to_vec());
    assert!(doc.entry_at(0).1.deep_eq(&text("Hello")));
    assert_eq!(doc.entry_at(1).0, b"Foo".to_vec());
    assert!(doc.entry_at(1).1.deep_eq(&foo_value(3, None)));
}

#[test]
fn serializable_map_test_de_foo() {
    let registry = get_registry();

    let mut doc = Document::empty();
    doc.insert(b"Foo".to_vec(), foo_value(3, None));

    let (map, issues) = simple_preferences::codec::deserialize(&registry, &doc);
    assert!(issues.is_empty());

    let mut expected = PreferencesMap::empty();
    expected.set(&registry, &foo_path(), foo_value(3, None));
    assert!(map.deep_eq(&expected));
}

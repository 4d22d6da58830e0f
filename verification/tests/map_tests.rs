//! Tests of the heterogeneous store and its document form.

use simple_preferences::Document;
use simple_preferences::PreferencesMap;
use simple_preferences::PreferencesRegistry;
use simple_preferences::TypePath;
use simple_preferences::Value;

fn tp(full: &str, short: &str) -> TypePath {
    TypePath::new(full.as_bytes().to_vec(), short.as_bytes().to_vec())
}

fn text(s: &str) -> Value {
    Value::Text(s.as_bytes().to_vec())
}

fn foo_value(field: i64, option: Option<i64>) -> Value {
    Value::Table(vec![
        (b"field".to_vec(), Value::Int(field)),
        (
            b"option".to_vec(),
            Value::List(match option {
                Some(v) => vec![Value::Int(v)],
                None => vec![],
            }),
        ),
    ])
}

fn foo_path() -> TypePath {
    tp("my_app::map::Foo", "Foo")
}

fn bar_path() -> TypePath {
    tp("my_app::map::Bar", "Bar")
}

fn ambiguous_bar_path() -> TypePath {
    tp("my_app::map::ambiguous::Bar", "Bar")
}

fn get_registry() -> PreferencesRegistry {
    let mut registry = PreferencesRegistry::new();
    registry.register(foo_path(), foo_value(0, None));
    registry.register(bar_path(), text(""));
    registry
}

fn table_get<'a>(v: &'a Value, name: &str) -> &'a Value {
    match v {
        Value::Table(fields) => fields
            .iter()
            .find(|f| f.0 == name.as_bytes())
            .map(|f| &f.1)
            .expect("field not present"),
        _ => panic!("not a table"),
    }
}

#[test]
fn map_test_sets_and_gets() {
    let registry = get_registry();
    let mut map = PreferencesMap::empty();
    map.set(&registry, &foo_path(), foo_value(4, Some(2)));

    let value = map.get(&registry, &foo_path()).unwrap();

    assert!(table_get(value, "field").deep_eq(&Value::Int(4)));
    assert!(table_get(value, "option").deep_eq(&Value::List(vec![Value::Int(2)])));
}

#[test]
fn map_test_sets_and_gets_with_ambiguous() {
    let mut registry = get_registry();
    registry.register(ambiguous_bar_path(), text(""));

    let mut map = PreferencesMap::empty();
    map.set(&registry, &bar_path(), text("Bar"));
    map.set(&registry, &ambiguous_bar_path(), text("ambiguousBar"));

    let bar = map.get(&registry, &bar_path()).unwrap();
    let ambiguous_bar = map.get(&registry, &ambiguous_bar_path()).unwrap();

    assert!(bar.deep_eq(&text("Bar")));
    assert!(ambiguous_bar.deep_eq(&text("ambiguousBar")));
}

#[test]
fn map_test_sets_dyn_and_gets() {
    let registry = get_registry();
    let mut map = PreferencesMap::empty();
    map.set_dyn(&registry, &foo_path(), foo_value(4, Some(2)));

    let value = map.get(&registry, &foo_path()).unwrap();

    assert!(table_get(value, "field").deep_eq(&Value::Int(4)));
    assert!(table_get(value, "option").deep_eq(&Value::List(vec![Value::Int(2)])));
}

#[test]
fn test_get_mut_or_default() {
    let registry = get_registry();
    let mut map = PreferencesMap::empty();

    {
        let value = map.get_mut_or_default(&registry, &bar_path());
        *value = text("Other String");
    }

    let value = map.get(&registry, &bar_path()).unwrap();
    assert!(value.deep_eq(&text("Other String")));
}

#[test]
fn test_remove() {
    let registry = get_registry();
    let mut map = PreferencesMap::empty();
    map.set(&registry, &bar_path(), text("H"));

    map.take(&registry, &bar_path());
    assert!(map.get(&registry, &bar_path()).is_none());
    assert!(map.is_empty());
}

#[test]
fn map_test_reflect_partial_eq() {
    let registry = get_registry();
    let mut map = PreferencesMap::empty();
    map.set(&registry, &bar_path(), text("reflect_partial_eq"));

    let mut dynamic_map = PreferencesMap::empty();
    dynamic_map.set_dyn(&registry, &bar_path(), text("reflect_partial_eq"));

    assert!(map.deep_eq(&dynamic_map));
    assert!(dynamic_map.deep_eq(&map));
}

#[test]
fn map_test_ser_empty() {
    let map = PreferencesMap::empty();
    let doc = simple_preferences::codec::serialize(&map);
    assert_eq!(doc.len(), 0);
}

#[test]
fn map_test_ser_foo() {
    let registry = get_registry();
    let mut map = PreferencesMap::empty();
    map.set(&registry, &foo_path(), foo_value(3, None));

    let doc = simple_preferences::codec::serialize(&map);
    assert_eq!(doc.len(), 1);
    assert_eq!(doc.entry_at(0).0, b"Foo".to_vec());
    assert!(doc.entry_at(0).1.deep_eq(&foo_value(3, None)));
}

#[test]
fn map_test_ser_foo_using_reflect() {
    let registry = get_registry();
    let mut map = PreferencesMap::empty();
    map.set_dyn(&registry, &foo_path(), foo_value(3, None));

    let doc = simple_preferences::codec::serialize(&map);
    assert_eq!(doc.len(), 1);
    assert_eq!(doc.entry_at(0).0, b"Foo".to_vec());
    assert!(doc.entry_at(0).1.deep_eq(&foo_value(3, None)));
}

#[test]
fn map_test_ser_bar() {
    let registry = get_registry();
    let mut map = PreferencesMap::empty();
    map.set(&registry, &bar_path(), text("Hello"));

    let doc = simple_preferences::codec::serialize(&map);
    assert_eq!(doc.len(), 1);
    assert_eq!(doc.entry_at(0).0, b"Bar".to_vec());
    assert!(doc.entry_at(0).1.deep_eq(&text("Hello")));
}

#[test]
fn test_servebar_with_ambiguous() {
    let mut registry = get_registry();
    registry.register(ambiguous_bar_path(), text(""));

    let mut map = PreferencesMap::empty();
    map.set(&registry, &bar_path(), text("Bar"));
    map.set(&registry, &ambiguous_bar_path(), text("ambiguousBar"));

    let doc = simple_preferences::codec::serialize(&map);
    assert_eq!(doc.len(), 2);
    assert_eq!(doc.entry_at(0).0, b"my_app::map::Bar".to_vec());
    assert!(doc.entry_at(0).1.deep_eq(&text("Bar")));
    assert_eq!(doc.entry_at(1).0, b"my_app::map::ambiguous::Bar".to_vec());
    assert!(doc.entry_at(1).1.deep_eq(&text("ambiguousBar")));
}

#[test]
fn map_test_ser_foo_bar() {
    let registry = get_registry();
    let mut map = PreferencesMap::empty();
    map.set(&registry, &foo_path(), foo_value(3, None));
    map.set(&registry, &bar_path(), text("Hello"));

    let doc = simple_preferences::codec::serialize(&map);
    assert_eq!(doc.len(), 2);
    assert_eq!(doc.entry_at(0).0, b"Bar".to_vec());
    assert!(doc.entry_at(0).1.deep_eq(&text("Hello")));
    assert_eq!(doc.entry_at(1).0, b"Foo".to_vec());
    assert!(doc.entry_at(1).1.deep_eq(&foo_value(3, None)));
}

#[test]
fn map_test_de_foo() {
    let registry = get_registry();

    let mut doc = Document::empty();
    doc.insert(b"Foo".to_vec(), foo_value(3, None));

    let (map, issues) = simple_preferences::codec::deserialize(&registry, &doc);
    assert!(issues.is_empty());

    let mut expected = PreferencesMap::empty();
    expected.set(&registry, &foo_path(), foo_value(3, None));
    assert!(map.deep_eq(&expected));
}

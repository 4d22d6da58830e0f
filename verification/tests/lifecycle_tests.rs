//! End-to-end scenarios: round trips through the codec, schema drift,
//! missing-document loads, and the full mutate-then-flush cycle.

use simple_preferences::Document;
use simple_preferences::PreferencesError;
use simple_preferences::PreferencesMap;
use simple_preferences::PreferencesRegistry;
use simple_preferences::PreferencesResource;
use simple_preferences::SaveScheduler;
use simple_preferences::TypePath;
use simple_preferences::Value;

fn tp(full: &str, short: &str) -> TypePath {
    TypePath::new(full.as_bytes().to_vec(), short.as_bytes().to_vec())
}

fn text(s: &str) -> Value {
    Value::Text(s.as_bytes().to_vec())
}

fn foo_value(field: i64, option: Option<i64>) -> Value {
    Value::Table(vec![
        (b"field".to_vec(), Value::Int(field)),
        (
            b"option".to_vec(),
            Value::List(match option {
                Some(v) => vec![Value::Int(v)],
                None => vec![],
            }),
        ),
    ])
}

fn foo_path() -> TypePath {
    tp("my_app::lifecycle::Foo", "Foo")
}

fn bar_path() -> TypePath {
    tp("my_app::lifecycle::Bar", "Bar")
}

fn get_registry() -> PreferencesRegistry {
    let mut registry = PreferencesRegistry::new();
    registry.register(foo_path(), foo_value(0, None));
    registry.register(bar_path(), text(""));
    registry
}

#[test]
fn round_trip_preserves_every_entry() {
    let registry = get_registry();
    let mut map = PreferencesMap::empty();
    map.set(&registry, &foo_path(), foo_value(3, Some(27)));
    map.set(&registry, &bar_path(), text("Bar"));

    let doc = simple_preferences::codec::serialize(&map);
    let (read_map, issues) = simple_preferences::codec::deserialize(&registry, &doc);

    assert!(issues.is_empty());
    assert!(read_map.deep_eq(&map));
}

#[test]
fn schema_drift_overwrites_only_recognized_fields() {
    let registry = get_registry();

    // The stored entry has an unknown extra field and lacks the recognized
    // "option" field.
    let drifted = Value::Table(vec![
        (b"unknown".to_vec(), Value::Bool(true)),
        (b"field".to_vec(), Value::Int(3)),
    ]);
    let mut doc = Document::empty();
    doc.insert(b"Foo".to_vec(), drifted);
    doc.insert(b"Bar".to_vec(), text("untouched"));

    let (map, issues) = simple_preferences::codec::deserialize(&registry, &doc);

    // The whole load survived; the drifted entry became the default with
    // the recognized field overwritten and the unknown field dropped.
    assert!(issues.is_empty());
    let foo = map.get(&registry, &foo_path()).unwrap();
    assert!(foo.deep_eq(&foo_value(3, None)));
    let bar = map.get(&registry, &bar_path()).unwrap();
    assert!(bar.deep_eq(&text("untouched")));
}

#[test]
fn wrong_shape_falls_back_to_default() {
    let registry = get_registry();

    // A value of an entirely wrong shape for Foo: not a table at all.
    let mut doc = Document::empty();
    doc.insert(b"Foo".to_vec(), text("type confusion"));

    let (map, issues) = simple_preferences::codec::deserialize(&registry, &doc);

    assert!(issues.is_empty());
    let foo = map.get(&registry, &foo_path()).unwrap();
    assert!(foo.deep_eq(&foo_value(0, None)));
}

#[test]
fn missing_document_loads_defaults_and_saves_nothing() {
    let registry = get_registry();

    let (map, issues) =
        simple_preferences::plugin::load_preferences(&registry, Err(PreferencesError::NotFound));
    assert!(issues.is_empty());

    // Every registered type is present, populated from its default.
    assert_eq!(map.len(), 2);
    assert!(map.get(&registry, &foo_path()).unwrap().deep_eq(&foo_value(0, None)));
    assert!(map.get(&registry, &bar_path()).unwrap().deep_eq(&text("")));

    // Zero saves until a real mutation occurs.
    let mut resource = PreferencesResource::new(map);
    let scheduler = SaveScheduler::new(1, resource.change_counter(), 0);
    assert!(simple_preferences::plugin::save_preferences(&scheduler, &resource, 50, false)
        .is_none());
    assert!(simple_preferences::plugin::save_preferences(&scheduler, &resource, 50, true)
        .is_none());

    // A real mutation makes the next tick past the interval save.
    resource.set(&registry, &bar_path(), text("changed"));
    let doc = simple_preferences::plugin::save_preferences(&scheduler, &resource, 51, false)
        .expect("the mutation is saved");
    assert!(doc.get(&b"Bar".to_vec()).unwrap().deep_eq(&text("changed")));
}

#[test]
fn unreadable_document_degrades_to_defaults_with_issue() {
    let registry = get_registry();

    let (map, issues) = simple_preferences::plugin::load_preferences(
        &registry,
        Err(PreferencesError::Deserialization),
    );

    assert_eq!(issues.len(), 1);
    assert!(matches!(&issues[0], PreferencesError::Deserialization));
    assert_eq!(map.len(), 2);
    assert!(map.get(&registry, &foo_path()).unwrap().deep_eq(&foo_value(0, None)));
}

#[test]
fn io_failure_degrades_to_defaults_with_issue() {
    let registry = get_registry();

    let (map, issues) =
        simple_preferences::plugin::load_preferences(&registry, Err(PreferencesError::Io));

    assert_eq!(issues.len(), 1);
    assert!(matches!(&issues[0], PreferencesError::Io));
    assert_eq!(map.len(), 2);
}

#[test]
fn load_fills_defaults_for_types_missing_from_document() {
    let registry = get_registry();

    let mut doc = Document::empty();
    doc.insert(b"Bar".to_vec(), text("stored"));

    let (map, issues) = simple_preferences::plugin::load_preferences(&registry, Ok(doc));

    assert!(issues.is_empty());
    assert!(map.get(&registry, &bar_path()).unwrap().deep_eq(&text("stored")));
    assert!(map.get(&registry, &foo_path()).unwrap().deep_eq(&foo_value(0, None)));
}

#[test]
fn full_path_key_still_finds_its_registration() {
    let registry = get_registry();

    // An older document may key an entry by full path even though the short
    // path has since become unambiguous; resolution falls back to the full
    // path and the entry is re-keyed to the effective identifier.
    let mut doc = Document::empty();
    doc.insert(b"my_app::lifecycle::Bar".to_vec(), text("old key"));

    let (map, issues) = simple_preferences::codec::deserialize(&registry, &doc);

    assert!(issues.is_empty());
    assert!(map.get(&registry, &bar_path()).unwrap().deep_eq(&text("old key")));
}

#[test]
fn every_resource_mutation_advances_the_change_marker() {
    let registry = get_registry();
    let (map, _) =
        simple_preferences::plugin::load_preferences(&registry, Err(PreferencesError::NotFound));
    let mut resource = PreferencesResource::new(map);
    assert_eq!(resource.change_counter(), 0);

    resource.set(&registry, &bar_path(), text("one"));
    assert_eq!(resource.change_counter(), 1);

    {
        let value = resource.get_mut(&registry, &bar_path()).unwrap();
        *value = text("two");
    }
    assert_eq!(resource.change_counter(), 2);
    assert!(resource.map().get(&registry, &bar_path()).unwrap().deep_eq(&text("two")));

    {
        let value = resource.get_mut_or_default(&registry, &bar_path());
        *value = text("three");
    }
    assert_eq!(resource.change_counter(), 3);

    let taken = resource.take(&registry, &bar_path()).unwrap();
    assert!(taken.deep_eq(&text("three")));
    assert_eq!(resource.change_counter(), 4);

    // Taking the already absent entry mutates nothing.
    assert!(resource.take(&registry, &bar_path()).is_none());
    assert_eq!(resource.change_counter(), 4);

    // Borrowing an absent entry mutates nothing either.
    assert!(resource.get_mut(&registry, &bar_path()).is_none());
    assert_eq!(resource.change_counter(), 4);
}

#[test]
fn mutation_guard_commits_exactly_once() {
    let registry = get_registry();
    let (map, _) =
        simple_preferences::plugin::load_preferences(&registry, Err(PreferencesError::NotFound));
    let mut resource = PreferencesResource::new(map);
    let before = resource.change_counter();

    let mut guard = resource.mutate(&registry, &bar_path());
    *guard.value_mut() = text("edited");
    // The resource is untouched while the scope is open.
    assert_eq!(resource.change_counter(), before);

    guard.commit(&mut resource, &registry);
    assert_eq!(resource.change_counter(), before + 1);
    assert!(resource.map().get(&registry, &bar_path()).unwrap().deep_eq(&text("edited")));
}

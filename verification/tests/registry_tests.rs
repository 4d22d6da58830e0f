//! Tests of registration, defaults at load, and saving mutations back.

use simple_preferences::Document;
use simple_preferences::PreferencesError;
use simple_preferences::PreferencesMap;
use simple_preferences::PreferencesRegistry;
use simple_preferences::PreferencesResource;
use simple_preferences::SaveScheduler;
use simple_preferences::TypePath;
use simple_preferences::Value;

fn tp(full: &str, short: &str) -> TypePath {
    TypePath::new(full.as_bytes().to_vec(), short.as_bytes().to_vec())
}

fn text(s: &str) -> Value {
    Value::Text(s.as_bytes().to_vec())
}

fn my_preferences_path() -> TypePath {
    tp("my_app::registry::MyPreferences", "MyPreferences")
}

#[test]
fn test_register_preferences_using_default() {
    let mut registry = PreferencesRegistry::new();
    registry.register(my_preferences_path(), text("DefaultValue"));
    registry.seal();

    let (map, issues) =
        simple_preferences::plugin::load_preferences(&registry, Err(PreferencesError::NotFound));
    assert!(issues.is_empty());

    let resource = PreferencesResource::new(map);
    let value = resource.map().get(&registry, &my_preferences_path()).unwrap();
    assert!(value.deep_eq(&text("DefaultValue")));
}

#[test]
fn test_register_preferences_using_specified_default_value() {
    let mut registry = PreferencesRegistry::new();
    registry.register(my_preferences_path(), text("SpecifiedValue"));
    registry.seal();

    let (map, issues) =
        simple_preferences::plugin::load_preferences(&registry, Err(PreferencesError::NotFound));
    assert!(issues.is_empty());

    let resource = PreferencesResource::new(map);
    let value = resource.map().get(&registry, &my_preferences_path()).unwrap();
    assert!(value.deep_eq(&text("SpecifiedValue")));
}

#[test]
fn test_register_preferences_takes_value_from_reflect_map() {
    let mut registry = PreferencesRegistry::new();
    registry.register(my_preferences_path(), text("DefaultValue"));
    registry.seal();

    let mut doc = Document::empty();
    doc.insert(
        b"MyPreferences".to_vec(),
        text("ValueFromPreferencesReflect"),
    );

    let (map, issues) = simple_preferences::plugin::load_preferences(&registry, Ok(doc));
    assert!(issues.is_empty());

    let resource = PreferencesResource::new(map);
    let value = resource.map().get(&registry, &my_preferences_path()).unwrap();
    assert!(value.deep_eq(&text("ValueFromPreferencesReflect")));
}

#[test]
fn test_register_preferences_saves_back_to_reflect_map() {
    let mut registry = PreferencesRegistry::new();
    registry.register(my_preferences_path(), text("DefaultValue"));
    registry.seal();

    let (map, _) =
        simple_preferences::plugin::load_preferences(&registry, Err(PreferencesError::NotFound));
    let mut resource = PreferencesResource::new(map);

    let mut guard = resource.mutate(&registry, &my_preferences_path());
    *guard.value_mut() = text("ValueFromSystem");
    guard.commit(&mut resource, &registry);

    let mut scheduler = SaveScheduler::new(1, 0, 0);
    let doc = simple_preferences::plugin::save_preferences(&scheduler, &resource, 5, false)
        .expect("a mutation past the debounce interval saves");
    scheduler.confirm_saved(resource.change_counter(), 5);
    assert!(simple_preferences::plugin::save_preferences(&scheduler, &resource, 6, false).is_none());

    let stored = doc.get(&b"MyPreferences".to_vec()).unwrap();
    assert!(stored.deep_eq(&text("ValueFromSystem")));

    let map_value = resource.map().get(&registry, &my_preferences_path()).unwrap();
    assert!(map_value.deep_eq(&text("ValueFromSystem")));
}

#[test]
fn test_register_is_idempotent_per_type() {
    let mut registry = PreferencesRegistry::new();
    registry.register(my_preferences_path(), text("First"));
    registry.register(my_preferences_path(), text("Second"));
    assert_eq!(registry.len(), 1);

    let (map, _) =
        simple_preferences::plugin::load_preferences(&registry, Err(PreferencesError::NotFound));
    let value = map.get(&registry, &my_preferences_path()).unwrap();
    assert!(value.deep_eq(&text("First")));
}

#[test]
fn test_sealed_is_visible_to_callers() {
    let mut registry = PreferencesRegistry::new();
    assert!(!registry.sealed());
    registry.register(my_preferences_path(), text("DefaultValue"));
    assert!(!registry.sealed());
    registry.seal();
    assert!(registry.sealed());
}

#[test]
fn test_shadowed_names_are_detected() {
    let mut registry = PreferencesRegistry::new();
    registry.register(my_preferences_path(), text("DefaultValue"));
    assert!(registry.no_shadowed_names());

    // A type whose short name is spelled like another type's full path is
    // the wiring error the load flow's hypothesis rules out.
    registry.register(
        tp("elsewhere::Odd", "my_app::registry::MyPreferences"),
        text(""),
    );
    assert!(!registry.no_shadowed_names());
}

#[test]
fn test_unregistered_type_is_reported_and_skipped() {
    let mut registry = PreferencesRegistry::new();
    registry.register(my_preferences_path(), text("DefaultValue"));

    let mut doc = Document::empty();
    doc.insert(b"MyPreferences".to_vec(), text("Stored"));
    doc.insert(b"NeverRegistered".to_vec(), text("Orphan"));

    let (map, issues) = simple_preferences::codec::deserialize(&registry, &doc);

    assert_eq!(issues.len(), 1);
    assert!(matches!(
        &issues[0],
        PreferencesError::UnregisteredType(key) if key == &b"NeverRegistered".to_vec()
    ));

    let mut expected = PreferencesMap::empty();
    expected.set(&registry, &my_preferences_path(), text("Stored"));
    assert!(map.deep_eq(&expected));
}

use migration_helpers::datastore::{MetadataMap, MigrationData, ValueMap};
use migration_helpers::settings_migrations::delete_configs_and_services::DeleteConfigsAndServicesOnDowngradeMigration;
use migration_helpers::value::Value;

fn s(v: &str) -> Value {
    Value::String(v.to_string())
}

fn data_of(entries: Vec<(&str, Value)>) -> MigrationData {
    let mut d = MigrationData::new();
    for (k, v) in entries {
        d.data.insert(k.to_string(), v);
    }
    d
}

fn map_of(entries: Vec<(&str, Value)>) -> ValueMap {
    let mut m = ValueMap::new();
    for (k, v) in entries {
        m.insert(k.to_string(), v);
    }
    m
}

fn meta_of(entries: Vec<(&str, Vec<(&str, Value)>)>) -> MetadataMap {
    let mut m = MetadataMap::new();
    for (setting, pairs) in entries {
        let mut inner = ValueMap::new();
        for (k, v) in pairs {
            inner.insert(k.to_string(), v);
        }
        m.insert(setting.to_string(), inner);
    }
    m
}

#[test]
fn nothing_to_clear() {
    let data = data_of(vec![
        ("settings.hello", s("there")),
        ("settings.something.configuration-files", s("retain this!")),
        ("settings.something.services", s("and this!")),
    ]);
    let result = DeleteConfigsAndServicesOnDowngradeMigration.backward(data).unwrap();
    let expected = map_of(vec![
        ("settings.hello", s("there")),
        ("settings.something.configuration-files", s("retain this!")),
        ("settings.something.services", s("and this!")),
    ]);
    assert!(result.data.deep_eq(&expected));
}

#[test]
fn all_clear() {
    let data = data_of(vec![
        ("services.delete-this", s("yep")),
        ("configuration-files.delete-this", s("this too")),
        ("configuration-files.another-one", s("bye")),
        ("services.and-this", s("au revoir")),
    ]);
    let result = DeleteConfigsAndServicesOnDowngradeMigration.backward(data).unwrap();
    assert!(result.data.deep_eq(&ValueMap::new()));
}

#[test]
fn delete_some() {
    let data = data_of(vec![
        ("services.delete-this", s("deleted")),
        ("configuration-files.and-this", s("deleted")),
        ("settings.but-not-this", s("stays")),
        ("or-this-either.configuration-files", s("also-stays")),
    ]);
    let result = DeleteConfigsAndServicesOnDowngradeMigration.backward(data).unwrap();
    let expected = map_of(vec![
        ("settings.but-not-this", s("stays")),
        ("or-this-either.configuration-files", s("also-stays")),
    ]);
    assert!(result.data.deep_eq(&expected));
}

#[test]
fn dont_touch_the_metadata() {
    let mut data = data_of(vec![
        ("configuration-files.delete", s("delete")),
        ("services.delete", s("delete")),
        ("settings.keep", s("keep")),
    ]);
    data.metadata = meta_of(vec![
        ("configuration-files.delete", vec![("keep", s("yep!"))]),
        ("services.delete", vec![("keep", s("yep!"))]),
        ("settings.keep", vec![("keep", s("yep!"))]),
    ]);
    let result = DeleteConfigsAndServicesOnDowngradeMigration.backward(data).unwrap();
    let mut expected = MigrationData::new();
    expected.data = map_of(vec![("settings.keep", s("keep"))]);
    expected.metadata = meta_of(vec![
        ("configuration-files.delete", vec![("keep", s("yep!"))]),
        ("services.delete", vec![("keep", s("yep!"))]),
        ("settings.keep", vec![("keep", s("yep!"))]),
    ]);
    assert!(result.deep_eq(&expected));
}

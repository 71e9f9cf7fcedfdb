use migration_helpers::common_migrations::{AddMetadataMigration, RemoveMetadataMigration,
    SettingMetadata};
use migration_helpers::datastore::{MetadataMap, MigrationData, ValueMap};
use migration_helpers::value::Value;

fn meta_of(entries: Vec<(&str, Vec<(&str, Value)>)>) -> MetadataMap {
    let mut m = MetadataMap::new();
    for (setting, pairs) in entries {
        let mut inner = ValueMap::new();
        for (k, v) in pairs {
            inner.insert(k.to_string(), v);
        }
        m.insert(setting.to_string(), inner);
    }
    m
}

fn data_with_metadata(entries: Vec<(&str, Vec<(&str, Value)>)>) -> MigrationData {
    let mut d = MigrationData::new();
    d.metadata = meta_of(entries);
    d
}

#[test]
fn common_migrations_backward() {
    let data = data_with_metadata(vec![(
        "hi",
        vec![("there", Value::String("whatever".to_string()))],
    )]);
    let result = AddMetadataMigration(&[SettingMetadata { setting: "hi", metadata: &["there"] }])
        .backward(data)
        .unwrap();
    let expected = meta_of(vec![("hi", vec![])]);
    assert!(result.metadata.deep_eq(&expected));
}

#[test]
fn backward_noop() {
    let data = data_with_metadata(vec![(
        "hi",
        vec![("sup", Value::String("wassup".to_string()))],
    )]);
    let result = AddMetadataMigration(&[SettingMetadata { setting: "hi", metadata: &["there"] }])
        .backward(data)
        .unwrap();
    let expected = meta_of(vec![("hi", vec![("sup", Value::String("wassup".to_string()))])]);
    assert!(result.metadata.deep_eq(&expected));
}

#[test]
fn forward() {
    let data = data_with_metadata(vec![(
        "hi",
        vec![("there", Value::String("whatever".to_string()))],
    )]);
    let result = RemoveMetadataMigration(&[SettingMetadata {
        setting: "hi",
        metadata: &["there"],
    }])
    .forward(data)
    .unwrap();
    let expected = meta_of(vec![("hi", vec![])]);
    assert!(result.metadata.deep_eq(&expected));
}

#[test]
fn forward_noop() {
    let data = data_with_metadata(vec![(
        "hi",
        vec![("there", Value::String("whatever".to_string()))],
    )]);
    let result = RemoveMetadataMigration(&[SettingMetadata {
        setting: "hi",
        metadata: &["which"],
    }])
    .forward(data)
    .unwrap();
    let expected = meta_of(vec![("hi", vec![("there", Value::String("whatever".to_string()))])]);
    assert!(result.metadata.deep_eq(&expected));
}

#[test]
fn remove_metadata_backward() {
    let data = data_with_metadata(vec![(
        "hi",
        vec![("there", Value::String("whatever".to_string()))],
    )]);
    let result = RemoveMetadataMigration(&[SettingMetadata {
        setting: "hi",
        metadata: &["there"],
    }])
    .backward(data)
    .unwrap();
    let expected = meta_of(vec![("hi", vec![("there", Value::String("whatever".to_string()))])]);
    assert!(result.metadata.deep_eq(&expected));
}

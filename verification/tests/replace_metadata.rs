use migration_helpers::common_migrations::{MetadataReplacement, ReplaceMetadataMigration};
use migration_helpers::datastore::{MetadataMap, MigrationData, ValueMap};
use migration_helpers::value::Value;

fn strings(vals: &[&str]) -> Value {
    Value::Array(vals.iter().map(|v| Value::String(v.to_string())).collect())
}

fn meta_of(entries: Vec<(&str, Vec<(&str, Value)>)>) -> MetadataMap {
    let mut m = MetadataMap::new();
    for (setting, pairs) in entries {
        let mut inner = ValueMap::new();
        for (k, v) in pairs {
            inner.insert(k.to_string(), v);
        }
        m.insert(setting.to_string(), inner);
    }
    m
}

fn data_with_metadata(entries: Vec<(&str, Vec<(&str, Value)>)>) -> MigrationData {
    let mut d = MigrationData::new();
    d.metadata = meta_of(entries);
    d
}

#[test]
fn test_forward() {
    let data = data_with_metadata(vec![(
        "hiking",
        vec![("setting-generator", Value::String("weather-is-sunny".to_string()))],
    )]);
    let result = ReplaceMetadataMigration(vec![MetadataReplacement {
        setting: "hiking",
        metadata: "setting-generator",
        old_val: "weather-is-sunny",
        new_val: "/bin/true",
    }])
    .forward(data)
    .unwrap();

    let expected = meta_of(vec![(
        "hiking",
        vec![("setting-generator", Value::String("/bin/true".to_string()))],
    )]);
    assert!(result.metadata.deep_eq(&expected));
}

#[test]
fn test_backward() {
    let data = data_with_metadata(vec![(
        "favorite-dog-park",
        vec![("setting-generator", Value::String("closest-lake".to_string()))],
    )]);
    let result = ReplaceMetadataMigration(vec![MetadataReplacement {
        setting: "favorite-dog-park",
        metadata: "setting-generator",
        old_val: "closest-beach",
        new_val: "closest-lake",
    }])
    .backward(data)
    .unwrap();

    let expected = meta_of(vec![(
        "favorite-dog-park",
        vec![("setting-generator", Value::String("closest-beach".to_string()))],
    )]);
    assert!(result.metadata.deep_eq(&expected));
}

#[test]
fn replace_metadata_no_match() {
    let data = data_with_metadata(vec![
        ("hi1", vec![("hello?", Value::String("konichiwa".to_string()))]),
        ("hi2", vec![("goodbye?", Value::String("spokoynoy nochi".to_string()))]),
    ]);
    let result = ReplaceMetadataMigration(vec![
        MetadataReplacement {
            setting: "hi1",
            metadata: "not hello",
            old_val: "hey?",
            new_val: "whats up",
        },
        MetadataReplacement {
            setting: "hi1",
            metadata: "hello?",
            old_val: "goodbye",
            new_val: "whats up",
        },
        MetadataReplacement {
            setting: "hi3",
            metadata: "no",
            old_val: "goodbye",
            new_val: "whats up",
        },
    ])
    .forward(data)
    .unwrap();
    // No change
    let expected = meta_of(vec![
        ("hi1", vec![("hello?", Value::String("konichiwa".to_string()))]),
        ("hi2", vec![("goodbye?", Value::String("spokoynoy nochi".to_string()))]),
    ]);
    assert!(result.metadata.deep_eq(&expected));
}

#[test]
fn replace_metadata_not_string() {
    let data = data_with_metadata(vec![(
        "dirtywave",
        vec![("qualities", strings(&["synthesizer", "sequencer"]))],
    )]);
    let result = ReplaceMetadataMigration(vec![MetadataReplacement {
        setting: "dirtywave",
        metadata: "qualities",
        old_val: "sequencer",
        new_val: "tracker",
    }])
    .forward(data)
    .unwrap();
    // No change
    let expected = meta_of(vec![(
        "dirtywave",
        vec![("qualities", strings(&["synthesizer", "sequencer"]))],
    )]);
    assert!(result.metadata.deep_eq(&expected));
}

use migration_helpers::common_migrations::{ListReplacement, ReplaceListsMigration};
use migration_helpers::datastore::{MigrationData, ValueMap};
use migration_helpers::value::Value;

fn strings(vals: &[&str]) -> Value {
    Value::Array(vals.iter().map(|v| Value::String(v.to_string())).collect())
}

fn data_of(entries: Vec<(&str, Value)>) -> MigrationData {
    let mut d = MigrationData::new();
    for (k, v) in entries {
        d.data.insert(k.to_string(), v);
    }
    d
}

fn map_of(entries: Vec<(&str, Value)>) -> ValueMap {
    let mut m = ValueMap::new();
    for (k, v) in entries {
        m.insert(k.to_string(), v);
    }
    m
}

#[test]
fn common_migrations_single() {
    let data = data_of(vec![("hi", strings(&["there"]))]);
    let result = ReplaceListsMigration(vec![ListReplacement {
        setting: "hi",
        old_vals: &["there"],
        new_vals: &["sup"],
    }])
    .forward(data)
    .unwrap();
    let expected = map_of(vec![("hi", strings(&["sup"]))]);
    assert!(result.data.deep_eq(&expected));
}

#[test]
fn backward() {
    let data = data_of(vec![("hi", strings(&["there"]))]);
    let result = ReplaceListsMigration(vec![ListReplacement {
        setting: "hi",
        old_vals: &["sup"],
        new_vals: &["there"],
    }])
    .backward(data)
    .unwrap();
    let expected = map_of(vec![("hi", strings(&["sup"]))]);
    assert!(result.data.deep_eq(&expected));
}

#[test]
fn common_migrations_multiple() {
    let data = data_of(vec![
        ("hi", strings(&["there", "you"])),
        ("hi2", strings(&["hey", "listen"])),
        ("ignored", strings(&["no", "change"])),
    ]);
    let result = ReplaceListsMigration(vec![
        ListReplacement {
            setting: "hi",
            old_vals: &["there", "you"],
            new_vals: &["sup", "hey"],
        },
        ListReplacement {
            setting: "hi2",
            old_vals: &["hey", "listen"],
            new_vals: &["look", "watch out"],
        },
    ])
    .forward(data)
    .unwrap();
    let expected = map_of(vec![
        ("hi", strings(&["sup", "hey"])),
        ("hi2", strings(&["look", "watch out"])),
        ("ignored", strings(&["no", "change"])),
    ]);
    assert!(result.data.deep_eq(&expected));
}

#[test]
fn common_migrations_no_match() {
    let data = data_of(vec![
        ("hi", strings(&["no", "change"])),
        ("hi2", strings(&["no", "change"])),
    ]);
    let result = ReplaceListsMigration(vec![ListReplacement {
        setting: "hi",
        old_vals: &["there"],
        new_vals: &["sup", "hey"],
    }])
    .forward(data)
    .unwrap();
    // No change
    let expected = map_of(vec![
        ("hi", strings(&["no", "change"])),
        ("hi2", strings(&["no", "change"])),
    ]);
    assert!(result.data.deep_eq(&expected));
}

#[test]
fn not_list() {
    let data = data_of(vec![("hi", Value::String("just a string, not a list".to_string()))]);
    let result = ReplaceListsMigration(vec![ListReplacement {
        setting: "hi",
        old_vals: &["there"],
        new_vals: &["sup", "hey"],
    }])
    .forward(data)
    .unwrap();
    // No change
    let expected = map_of(vec![("hi", Value::String("just a string, not a list".to_string()))]);
    assert!(result.data.deep_eq(&expected));
}

#[test]
fn not_string() {
    let data = data_of(vec![("hi", Value::Array(vec![Value::Number(0)]))]);
    ReplaceListsMigration(vec![ListReplacement {
        setting: "hi",
        old_vals: &["there"],
        new_vals: &["sup", "hey"],
    }])
    .forward(data)
    .unwrap_err();
}

use migration_helpers::common_migrations::AddPrefixesMigration;
use migration_helpers::datastore::{MigrationData, ValueMap};
use migration_helpers::value::Value;

fn data_of(entries: Vec<(&str, Value)>) -> MigrationData {
    let mut d = MigrationData::new();
    for (k, v) in entries {
        d.data.insert(k.to_string(), v);
    }
    d
}

fn map_of(entries: Vec<(&str, Value)>) -> ValueMap {
    let mut m = ValueMap::new();
    for (k, v) in entries {
        m.insert(k.to_string(), v);
    }
    m
}

#[test]
fn single() {
    let data = data_of(vec![
        ("keep.me.a", Value::Number(0)),
        ("remove.me.b", Value::Number(0)),
        ("keep.this.c", Value::Number(0)),
        ("remove.me.d.e", Value::Number(0)),
    ]);
    // Run backward, e.g. downgrade, to test that the right keys are removed
    let result = AddPrefixesMigration(vec!["remove.me"]).backward(data).unwrap();
    let expected = map_of(vec![
        ("keep.me.a", Value::Number(0)),
        ("keep.this.c", Value::Number(0)),
    ]);
    assert!(result.data.deep_eq(&expected));
}

#[test]
fn multiple() {
    let data = data_of(vec![
        ("keep.me.a", Value::Number(0)),
        ("remove.me.b", Value::Number(0)),
        ("keep.this.c", Value::Number(0)),
        ("remove.this.d.e", Value::Number(0)),
    ]);
    // Run backward, e.g. downgrade, to test that the right keys are removed
    let result = AddPrefixesMigration(vec!["remove.me", "remove.this"])
        .backward(data)
        .unwrap();
    let expected = map_of(vec![
        ("keep.me.a", Value::Number(0)),
        ("keep.this.c", Value::Number(0)),
    ]);
    assert!(result.data.deep_eq(&expected));
}

#[test]
fn no_match() {
    let data = data_of(vec![
        ("keep.me.a", Value::Number(0)),
        ("remove.me.b", Value::Number(0)),
        ("keep.this.c", Value::Number(0)),
        ("remove.this.d.e", Value::Number(0)),
    ]);
    // Run backward, e.g. downgrade, to test that the right keys are removed
    let result = AddPrefixesMigration(vec!["not.found", "nor.this"])
        .backward(data)
        .unwrap();
    let expected = map_of(vec![
        ("keep.me.a", Value::Number(0)),
        ("remove.me.b", Value::Number(0)),
        ("keep.this.c", Value::Number(0)),
        ("remove.this.d.e", Value::Number(0)),
    ]);
    assert!(result.data.deep_eq(&expected));
}

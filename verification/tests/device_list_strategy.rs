use migration_helpers::datastore::{MigrationData, MigrationError, ValueMap};
use migration_helpers::settings_migrations::device_list_strategy::ReplaceDeviceListStrategy;
use migration_helpers::value::Value;

const DEVICE_LIST_STRATEGY_SETTING: &str =
    "settings.kubelet-device-plugins.nvidia.device-list-strategy";

fn s(v: &str) -> Value {
    Value::String(v.to_string())
}

fn strings(vals: &[&str]) -> Value {
    Value::Array(vals.iter().map(|v| s(v)).collect())
}

fn data_of(value: Value) -> MigrationData {
    let mut d = MigrationData::new();
    d.data.insert(DEVICE_LIST_STRATEGY_SETTING.to_string(), value);
    d
}

fn map_of(value: Value) -> ValueMap {
    let mut m = ValueMap::new();
    m.insert(DEVICE_LIST_STRATEGY_SETTING.to_string(), value);
    m
}

#[test]
fn forward_test() {
    let data = data_of(s("volume-mounts"));
    let result = ReplaceDeviceListStrategy.forward(data).unwrap();
    let expected = map_of(s("volume-mounts"));
    assert!(result.data.deep_eq(&expected));
}

#[test]
fn backward_test() {
    let test_cases: Vec<(MigrationData, ValueMap)> = vec![
        (data_of(strings(&["cdi-cri"])), map_of(s("volume-mounts"))),
        (data_of(strings(&[])), map_of(s("volume-mounts"))),
        (data_of(strings(&["volume-mounts", "envvar"])), map_of(s("volume-mounts"))),
        (data_of(strings(&["envvar", "volume-mounts"])), map_of(s("envvar"))),
        (data_of(strings(&["cdi-cri", "envvar"])), map_of(s("volume-mounts"))),
        (data_of(strings(&["cdi-cri", "envvar", "volume-mounts"])), map_of(s("volume-mounts"))),
        (data_of(strings(&["envvar", "volume-mounts"])), map_of(s("envvar"))),
        (data_of(strings(&["volume-mounts", "envvar"])), map_of(s("volume-mounts"))),
        (data_of(s("cdi-cri")), map_of(s("volume-mounts"))),
        (data_of(s("envvar")), map_of(s("envvar"))),
    ];

    for (input, expected) in test_cases {
        let result = ReplaceDeviceListStrategy.backward(input).unwrap();
        assert!(result.data.deep_eq(&expected));
    }
}

#[test]
fn backward_invalid_type_is_fatal() {
    let data = data_of(Value::Number(7));
    let err = ReplaceDeviceListStrategy.backward(data).unwrap_err();
    assert!(matches!(err, MigrationError::InvalidSettingType { .. }));
}

#[test]
fn backward_non_string_list_is_fatal() {
    let data = data_of(Value::Array(vec![Value::Number(7)]));
    let err = ReplaceDeviceListStrategy.backward(data).unwrap_err();
    assert!(matches!(err, MigrationError::ReplaceListContents { .. }));
}

#[test]
fn backward_absent_setting_is_left_alone() {
    let mut d = MigrationData::new();
    d.data.insert("settings.other".to_string(), s("keep"));
    let result = ReplaceDeviceListStrategy.backward(d).unwrap();
    let mut expected = ValueMap::new();
    expected.insert("settings.other".to_string(), s("keep"));
    assert!(result.data.deep_eq(&expected));
}

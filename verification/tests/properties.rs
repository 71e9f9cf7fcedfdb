use migration_helpers::Direction;
use migration_helpers::common_migrations::{AddSettingsMigration, ListReplacement,
    NoOpMigration, RemoveMatchingString, RemoveMetadataAndWeakSettingsMigration,
    RemoveSettingsMigration, ReplaceListsMigration, ReplaceStringMigration};
use migration_helpers::datastore::{MetadataMap, MigrationData, MigrationError, ValueMap};
use migration_helpers::files;
use migration_helpers::settings_migrations::{bootstrap_containers_command,
    ecr_credential_providers, reserved_pid_settings, static_pods_enabled};
use migration_helpers::value::Value;

fn s(v: &str) -> Value {
    Value::String(v.to_string())
}

fn strings(vals: &[&str]) -> Value {
    Value::Array(vals.iter().map(|v| s(v)).collect())
}

fn data_of(entries: Vec<(&str, Value)>) -> MigrationData {
    let mut d = MigrationData::new();
    for (k, v) in entries {
        d.data.insert(k.to_string(), v);
    }
    d
}

fn map_of(entries: Vec<(&str, Value)>) -> ValueMap {
    let mut m = ValueMap::new();
    for (k, v) in entries {
        m.insert(k.to_string(), v);
    }
    m
}

fn meta_of(entries: Vec<(&str, Vec<(&str, Value)>)>) -> MetadataMap {
    let mut m = MetadataMap::new();
    for (setting, pairs) in entries {
        let mut inner = ValueMap::new();
        for (k, v) in pairs {
            inner.insert(k.to_string(), v);
        }
        m.insert(setting.to_string(), inner);
    }
    m
}

// Round trip for AddSettingsMigration(["s"]): forward is a no-op, so
// backward(forward(d)) == d when "s" is absent; and forward(backward(d))
// equals backward(d), whose net effect is exactly that "s" was removed --
// not a true round trip.
#[test]
fn add_settings_round_trip_scenario() {
    let original = data_of(vec![("other", s("value")), ("s", s("added"))]);
    let without_s = map_of(vec![("other", s("value"))]);

    // d contains nothing for "s": backward(forward(d)) == d.
    let clean = data_of(vec![("other", s("value"))]);
    let after_forward = AddSettingsMigration(&["s"]).forward(clean).unwrap();
    let round = AddSettingsMigration(&["s"]).backward(after_forward).unwrap();
    assert!(round.data.deep_eq(&without_s));

    // With "s" present: forward(backward(d)) == backward(d), i.e. "s" removed.
    let after_backward = AddSettingsMigration(&["s"]).backward(original).unwrap();
    assert!(after_backward.data.deep_eq(&without_s));
    let net = AddSettingsMigration(&["s"]).forward(after_backward).unwrap();
    assert!(net.data.deep_eq(&without_s));
}

#[test]
fn add_settings_backward_not_found() {
    let data = data_of(vec![("other", s("value"))]);
    let result = AddSettingsMigration(&["missing"]).backward(data).unwrap();
    let expected = map_of(vec![("other", s("value"))]);
    assert!(result.data.deep_eq(&expected));
}

#[test]
fn remove_settings_forward_removes() {
    let data = data_of(vec![("gone", s("bye")), ("kept", s("hi"))]);
    let result = RemoveSettingsMigration(&["gone"]).forward(data).unwrap();
    let expected = map_of(vec![("kept", s("hi"))]);
    assert!(result.data.deep_eq(&expected));
}

// ReplaceString idempotence: applying forward twice equals applying it once,
// because after the first application the value no longer equals old_val.
#[test]
fn replace_string_forward_idempotent_scenario() {
    let data = data_of(vec![("greeting", s("hello"))]);
    let once = ReplaceStringMigration { setting: "greeting", old_val: "hello", new_val: "hey" }
        .forward(data)
        .unwrap();
    let expected = map_of(vec![("greeting", s("hey"))]);
    assert!(once.data.deep_eq(&expected));
    let twice = ReplaceStringMigration { setting: "greeting", old_val: "hello", new_val: "hey" }
        .forward(once)
        .unwrap();
    assert!(twice.data.deep_eq(&expected));
}

#[test]
fn replace_string_skips_other_values() {
    let data = data_of(vec![("greeting", s("howdy")), ("count", Value::Number(3))]);
    let result = ReplaceStringMigration { setting: "greeting", old_val: "hello", new_val: "hey" }
        .forward(data)
        .unwrap();
    let expected = map_of(vec![("greeting", s("howdy")), ("count", Value::Number(3))]);
    assert!(result.data.deep_eq(&expected));

    let numeric = data_of(vec![("count", Value::Number(3))]);
    let result = ReplaceStringMigration { setting: "count", old_val: "3", new_val: "4" }
        .backward(numeric)
        .unwrap();
    let expected = map_of(vec![("count", Value::Number(3))]);
    assert!(result.data.deep_eq(&expected));
}

// ReplaceLists exactness: the full ordered sequence must match; an extra
// element means no change.
#[test]
fn replace_lists_exactness_scenario() {
    let matching = data_of(vec![("hi", strings(&["there"]))]);
    let result = ReplaceListsMigration(vec![ListReplacement {
        setting: "hi",
        old_vals: &["there"],
        new_vals: &["sup"],
    }])
    .forward(matching)
    .unwrap();
    let expected = map_of(vec![("hi", strings(&["sup"]))]);
    assert!(result.data.deep_eq(&expected));

    let longer = data_of(vec![("hi", strings(&["there", "you"]))]);
    let result = ReplaceListsMigration(vec![ListReplacement {
        setting: "hi",
        old_vals: &["there"],
        new_vals: &["sup"],
    }])
    .forward(longer)
    .unwrap();
    let expected = map_of(vec![("hi", strings(&["there", "you"]))]);
    assert!(result.data.deep_eq(&expected));
}

// Fatal on non-string array: a targeted array holding a non-string element
// must fail the run, not silently skip.
#[test]
fn replace_lists_fatal_on_non_string_array() {
    let data = data_of(vec![("hi", Value::Array(vec![Value::Number(0)]))]);
    let err = ReplaceListsMigration(vec![ListReplacement {
        setting: "hi",
        old_vals: &["there"],
        new_vals: &["sup"],
    }])
    .forward(data)
    .unwrap_err();
    assert!(matches!(err, MigrationError::ReplaceListContents { .. }));
}

#[test]
fn no_op_leaves_everything() {
    let mut data = data_of(vec![("a", s("1"))]);
    data.metadata = meta_of(vec![("a", vec![("strength", s("weak"))])]);
    let expected_data = map_of(vec![("a", s("1"))]);
    let expected_meta = meta_of(vec![("a", vec![("strength", s("weak"))])]);
    let result = NoOpMigration.forward(data).unwrap();
    assert!(result.data.deep_eq(&expected_data));
    assert!(result.metadata.deep_eq(&expected_meta));
    let result = NoOpMigration.backward(result).unwrap();
    assert!(result.data.deep_eq(&expected_data));
    assert!(result.metadata.deep_eq(&expected_meta));
}

#[test]
fn remove_matching_string_forward_removes_only_match() {
    let data = data_of(vec![("a", s("old")), ("b", s("other"))]);
    let result = RemoveMatchingString { setting: "a", old_val: "old" }.forward(data).unwrap();
    let expected = map_of(vec![("b", s("other"))]);
    assert!(result.data.deep_eq(&expected));

    let data = data_of(vec![("a", s("different"))]);
    let result = RemoveMatchingString { setting: "a", old_val: "old" }.forward(data).unwrap();
    let expected = map_of(vec![("a", s("different"))]);
    assert!(result.data.deep_eq(&expected));

    let data = data_of(vec![("a", s("old"))]);
    let result = RemoveMatchingString { setting: "a", old_val: "old" }.backward(data).unwrap();
    let expected = map_of(vec![("a", s("old"))]);
    assert!(result.data.deep_eq(&expected));
}

// RemoveMetadataAndWeakSettings scenario: weak settings leave the data map,
// and the metadata map is cleared entirely, even for settings that were not
// weak.
#[test]
fn remove_metadata_and_weak_settings_scenario() {
    let mut data = data_of(vec![("a", Value::Number(1)), ("b", Value::Number(2))]);
    data.metadata = meta_of(vec![
        ("a", vec![("strength", s("weak"))]),
        ("b", vec![("strength", s("strong"))]),
    ]);
    let result = RemoveMetadataAndWeakSettingsMigration.backward(data).unwrap();
    let expected_data = map_of(vec![("b", Value::Number(2))]);
    assert!(result.data.deep_eq(&expected_data));
    assert!(result.metadata.deep_eq(&MetadataMap::new()));
}

#[test]
fn remove_metadata_and_weak_settings_forward_noop() {
    let mut data = data_of(vec![("a", Value::Number(1))]);
    data.metadata = meta_of(vec![("a", vec![("strength", s("weak"))])]);
    let result = RemoveMetadataAndWeakSettingsMigration.forward(data).unwrap();
    let expected_meta = meta_of(vec![("a", vec![("strength", s("weak"))])]);
    assert!(result.data.deep_eq(&map_of(vec![("a", Value::Number(1))])));
    assert!(result.metadata.deep_eq(&expected_meta));
}

#[test]
fn static_pods_enabled_run() {
    let data = data_of(vec![
        ("settings.kubernetes.static-pods-enabled", s("true")),
        ("settings.other", s("keep")),
    ]);
    let result = static_pods_enabled::run(Direction::Backward, data).unwrap();
    let expected = map_of(vec![("settings.other", s("keep"))]);
    assert!(result.data.deep_eq(&expected));

    let data = data_of(vec![("settings.other", s("keep"))]);
    let result = static_pods_enabled::run(Direction::Forward, data).unwrap();
    assert!(result.data.deep_eq(&map_of(vec![("settings.other", s("keep"))])));
}

#[test]
fn reserved_pid_settings_run() {
    let data = data_of(vec![
        ("settings.kubernetes.kube-reserved.pid", s("100")),
        ("settings.kubernetes.system-reserved.pid", s("200")),
        ("settings.kubernetes.kube-reserved.cpu", s("2")),
    ]);
    let result = reserved_pid_settings::run(Direction::Backward, data).unwrap();
    let expected = map_of(vec![("settings.kubernetes.kube-reserved.cpu", s("2"))]);
    assert!(result.data.deep_eq(&expected));
}

#[test]
fn bootstrap_containers_command_run() {
    let data = data_of(vec![
        ("settings.host-containers.admin.command", strings(&["ls"])),
        ("settings.host-containers.admin.enabled", s("true")),
        ("settings.bootstrap-containers.bear.command", strings(&["echo"])),
        ("settings.unrelated.command", s("keep")),
    ]);
    let result = bootstrap_containers_command::run(Direction::Backward, data).unwrap();
    let expected = map_of(vec![
        ("settings.host-containers.admin.enabled", s("true")),
        ("settings.unrelated.command", s("keep")),
    ]);
    assert!(result.data.deep_eq(&expected));
}

#[test]
fn ecr_credential_providers_run() {
    let setting =
        "settings.kubernetes.credential-providers.ecr-credential-provider.image-patterns";
    let old_list = &[
        "*.dkr.ecr.*.amazonaws.com",
        "*.dkr.ecr.*.amazonaws.com.cn",
        "*.dkr.ecr-fips.*.amazonaws.com",
        "*.dkr.ecr.eu-isoe-west-1.cloud.adc-e.uk",
        "*.dkr.ecr-fips.eu-isoe-west-1.cloud.adc-e.uk",
        "*.dkr.ecr.us-iso-east-1.c2s.ic.gov",
        "*.dkr.ecr.us-isob-east-1.sc2s.sgov.gov",
    ];
    let new_list = &[
        "*.dkr.ecr.*.amazonaws.com",
        "*.dkr.ecr.*.amazonaws.com.cn",
        "*.dkr.ecr.*.on.aws",
        "*.dkr.ecr.*.on.amazonwebservices.com.cn",
        "*.dkr.ecr-fips.*.amazonaws.com",
        "*.dkr.ecr.*.cloud.adc-e.uk",
        "*.dkr.ecr-fips.*.cloud.adc-e.uk",
        "*.dkr.ecr.*.c2s.ic.gov",
        "*.dkr.ecr-fips.*.c2s.ic.gov",
        "*.dkr.ecr.*.sc2s.sgov.gov",
        "*.dkr.ecr-fips.*.sc2s.sgov.gov",
        "*.dkr.ecr.*.csp.hci.ic.gov",
        "*.dkr.ecr-fips.*.csp.hci.ic.gov",
        "public.ecr.aws",
    ];
    let data = data_of(vec![(setting, strings(old_list))]);
    let result = ecr_credential_providers::run(Direction::Forward, data).unwrap();
    assert!(result.data.deep_eq(&map_of(vec![(setting, strings(new_list))])));

    let data = data_of(vec![(setting, strings(new_list))]);
    let result = ecr_credential_providers::run(Direction::Backward, data).unwrap();
    assert!(result.data.deep_eq(&map_of(vec![(setting, strings(old_list))])));
}

#[test]
fn value_deep_eq_distinguishes_shapes() {
    assert!(Value::Null.deep_eq(&Value::Null));
    assert!(!Value::Null.deep_eq(&Value::Bool(false)));
    assert!(Value::Bool(true).deep_eq(&Value::Bool(true)));
    assert!(!Value::Number(1).deep_eq(&Value::Number(2)));
    assert!(s("a").deep_eq(&s("a")));
    assert!(!s("a").deep_eq(&s("b")));
    assert!(strings(&["a", "b"]).deep_eq(&strings(&["a", "b"])));
    assert!(!strings(&["a", "b"]).deep_eq(&strings(&["b", "a"])));
    let obj = Value::Object(vec![("k".to_string(), s("v"))]);
    assert!(obj.deep_eq(&Value::Object(vec![("k".to_string(), s("v"))])));
    assert!(!obj.deep_eq(&Value::Object(vec![("k".to_string(), s("w"))])));
}

#[test]
fn file_read_appends_bytes() {
    let mut file: files::File = String::from("hi");
    let mut out: Vec<u8> = vec![0x21];
    assert!(files::open(&mut file));
    files::read(&mut file, &mut out);
    assert!(files::close(&mut file));
    assert_eq!(out, vec![0x21, b'h', b'i']);
    assert_eq!(file, "hi");
}

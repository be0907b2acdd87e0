use roomci::device::{
    apply_command_state, command_is_supported, command_requires_value, ContactModel,
    DeviceModelError, LightingEvent, LightingModel,
};
use roomci::strmap::StrMap;
use roomci::value::Value;

fn text(s: &str) -> Value {
    Value::Str(s.to_string())
}

fn entry(key: &str, value: Value) -> (Value, Value) {
    (text(key), value)
}

fn fixtures_config(ids: &[(&str, i64)]) -> StrMap<Value> {
    let mut items = Vec::new();
    for (id, level) in ids {
        items.push(Value::Mapping(vec![
            entry("id", text(id)),
            entry("level", Value::Int(*level)),
        ]));
    }
    let mut config = StrMap::new();
    config.insert("fixtures".to_string(), Value::List(items));
    config
}

fn scenes(name: &str, targets: &[(&str, i64)]) -> StrMap<StrMap<i64>> {
    let mut inner = StrMap::new();
    for (fixture, level) in targets {
        inner.insert(fixture.to_string(), *level);
    }
    let mut scenes = StrMap::new();
    scenes.insert(name.to_string(), inner);
    scenes
}

#[test]
fn smart_lock_unlock_updates_state() {
    let mut state = StrMap::new();

    apply_command_state("smart_lock", "unlock", None, &mut state);

    assert_eq!(state.get("lock_state"), Some(&text("unlocked")));
}

#[test]
fn climate_temperature_updates_setpoint() {
    let mut state = StrMap::new();

    apply_command_state("climate", "set_temperature", Some(&Value::Int(24)), &mut state);

    assert_eq!(state.get("setpoint_celsius"), Some(&Value::Int(24)));
}

#[test]
fn unsupported_command_is_rejected_by_capability_check() {
    assert!(!command_is_supported("smart_lock", "set_temperature"));
}

#[test]
fn capability_table_accepts_each_declared_action() {
    assert!(command_is_supported("smart_lock", "lock"));
    assert!(command_is_supported("light", "set_brightness"));
    assert!(command_is_supported("climate", "set_mode"));
    assert!(command_is_supported("cover", "close"));
    assert!(command_is_supported("room_controller", "activate_scene"));
    assert!(!command_is_supported("toaster", "lock"));
}

#[test]
fn value_commands_are_flagged_as_requiring_a_value() {
    assert!(command_requires_value("light", "set_brightness"));
    assert!(command_requires_value("cover", "set_position"));
    assert!(!command_requires_value("light", "turn_on"));
}

#[test]
fn cover_open_sets_full_position_and_missing_value_changes_nothing() {
    let mut state = StrMap::new();
    apply_command_state("cover", "open", None, &mut state);
    assert_eq!(state.get("position"), Some(&Value::UInt(100)));

    let mut untouched: StrMap<Value> = StrMap::new();
    apply_command_state("light", "set_brightness", None, &mut untouched);
    assert!(untouched.is_empty());
}

#[test]
fn lighting_scene_reports_partial_failure() {
    let mut model = LightingModel::try_from_config(
        &fixtures_config(&[("D411S10", 0), ("D411S11", 0)]),
        &scenes("welcome", &[("D411S10", 60), ("D411S11", 40)]),
    )
    .unwrap();

    model.drop_command_for_fixture("D411S10").unwrap();
    model.activate_scene("welcome").unwrap();

    assert_eq!(
        model.scene_consistency_failures("welcome").unwrap(),
        vec!["D411S10 expected level 60, actual 0".to_string()]
    );
}

#[test]
fn lighting_rejects_scene_with_unknown_fixture() {
    let model = LightingModel::try_from_config(
        &fixtures_config(&[("D411S10", 0)]),
        &scenes("welcome", &[("missing_fixture", 60)]),
    )
    .unwrap();

    assert_eq!(
        model.assert_scene_targets_exist(),
        Err(DeviceModelError::UnknownFixture("missing_fixture".to_string()))
    );
}

#[test]
fn contact_set_state_fails_for_unknown_id() {
    let mut contacts = ContactModel::default();

    let error = contacts.set_state("missing", "on").unwrap_err();

    assert_eq!(error, DeviceModelError::UnknownContact("missing".to_string()));
}

#[test]
fn lighting_activate_scene_fails_for_unknown_scene() {
    let mut model = LightingModel::default();

    let error = model.activate_scene("missing").unwrap_err();

    assert_eq!(error, DeviceModelError::UnknownScene("missing".to_string()));
}

#[test]
fn activating_a_scene_reports_each_target_in_fixture_order() {
    let mut model = LightingModel::try_from_config(
        &fixtures_config(&[("a", 0), ("b", 0)]),
        &scenes("evening", &[("b", 30), ("a", 70)]),
    )
    .unwrap();
    model.drop_command_for_fixture("b").unwrap();

    let events = model.activate_scene("evening").unwrap();

    assert_eq!(
        events,
        vec![
            LightingEvent::LevelChanged { fixture: "a".to_string(), level: 70 },
            LightingEvent::CommandDropped { fixture: "b".to_string() },
        ]
    );
    assert_eq!(
        model.scene_consistency_failures("evening").unwrap(),
        vec!["b expected level 30, actual 0".to_string()]
    );
}

#[test]
fn malformed_lighting_config_names_the_bad_entry() {
    let mut config = StrMap::new();
    config.insert("fixtures".to_string(), Value::List(vec![Value::Int(3)]));
    let error = LightingModel::try_from_config(&config, &StrMap::new()).unwrap_err();
    assert_eq!(
        error,
        DeviceModelError::InvalidLightingConfig("fixtures[] entries must be YAML maps".to_string())
    );
    assert_eq!(
        error.message(),
        "invalid DALI lighting config: fixtures[] entries must be YAML maps"
    );
}

#[test]
fn contact_config_defaults_state_to_off_and_updates_known_contacts() {
    let mut config = StrMap::new();
    config.insert(
        "inputs".to_string(),
        Value::List(vec![Value::Mapping(vec![entry("id", text("sauna_button"))])]),
    );
    let mut contacts = ContactModel::try_from_config(&config).unwrap();

    assert!(contacts.has_contact("sauna_button"));
    assert_eq!(contacts.state("sauna_button").map(|s| s.as_str()), Some("off"));
    contacts.set_state("sauna_button", "on").unwrap();
    assert_eq!(contacts.state("sauna_button").map(|s| s.as_str()), Some("on"));
}

#[test]
fn contact_config_rejects_an_entry_without_id() {
    let mut config = StrMap::new();
    config.insert(
        "inputs".to_string(),
        Value::List(vec![Value::Mapping(vec![entry("state", text("on"))])]),
    );
    assert_eq!(
        ContactModel::try_from_config(&config).unwrap_err(),
        DeviceModelError::InvalidContactConfig("inputs[].id must be a string".to_string())
    );
}

#[test]
fn device_error_messages_name_the_register() {
    let error = DeviceModelError::ReadOnlyModbusRegister {
        device: "floor_heating".to_string(),
        register: 30001,
    };
    assert_eq!(error.message(), "Modbus register floor_heating:30001 is read-only");
}

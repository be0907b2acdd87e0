use roomci::assertions::{
    evaluate_access_control_drift, evaluate_assertion, evaluate_comfort_timeseries,
    evaluate_commissioning_checklist, evaluate_guest_experience_field, evaluate_inline_assertion,
    evaluate_intercom_relay_evidence, evaluate_modbus_register, evaluate_mqtt_retained,
    evaluate_network_control_panel_faults, evaluate_ops, evaluate_scene_consistency,
    ValidatedAssertionKind, ValidatedInlineAssertionKind, ValidatedModbusAssertion,
    ValidatedMqttAssertion,
};
use roomci::device::{ContactModel, LightingModel};
use roomci::edge::EdgeModel;
use roomci::modbus::ModbusModel;
use roomci::ops::OpsModel;
use roomci::report::TimelineEvent;
use roomci::runtime::{
    Condition, MqttPublishStep, RuntimeDevice, RuntimeState, ValidatedMqttPublishStep,
    ValidatedTargetConditionAssertion,
};
use roomci::scenario::{DeviceId, Identifier, MqttTopic, SceneId};
use roomci::strmap::StrMap;
use roomci::value::Value;

fn text(s: &str) -> Value {
    Value::Str(s.to_string())
}

fn lighting() -> LightingModel {
    let mut config = StrMap::new();
    config.insert(
        "fixtures".to_string(),
        Value::List(vec![
            Value::Mapping(vec![(text("id"), text("D1")), (text("level"), Value::Int(0))]),
            Value::Mapping(vec![(text("id"), text("D2")), (text("level"), Value::Int(40))]),
        ]),
    );
    let mut targets = StrMap::new();
    targets.insert("D1".to_string(), 60);
    targets.insert("D2".to_string(), 40);
    let mut scenes = StrMap::new();
    scenes.insert("welcome".to_string(), targets);
    LightingModel::try_from_config(&config, &scenes).unwrap()
}

fn modbus() -> ModbusModel {
    let register = Value::Mapping(vec![(text("value"), Value::Int(245))]);
    let device = Value::Mapping(vec![
        (text("id"), text("floor_heating")),
        (text("holding_registers"), Value::Mapping(vec![(Value::Int(40001), register)])),
    ]);
    let mut config = StrMap::new();
    config.insert("devices".to_string(), Value::List(vec![device]));
    ModbusModel::try_from_config(&config).unwrap()
}

fn runtime(users: Vec<String>, checks: usize, site: Option<String>) -> RuntimeState {
    let mut lock_state = StrMap::new();
    lock_state.insert("lock_state".to_string(), text("locked"));
    let devices = vec![RuntimeDevice {
        id: "lock_101".to_string(),
        state: lock_state,
        protocol: Some("mqtt".to_string()),
    }];
    RuntimeState::new(
        &devices,
        true,
        EdgeModel::default(),
        None,
        None,
        None,
        modbus(),
        lighting(),
        ContactModel::default(),
        OpsModel::from_config(&Vec::new()),
        users,
        checks,
        site,
    )
}

fn push(state: &mut RuntimeState, event_type: &str) {
    state.timeline.push(TimelineEvent {
        at: "T".to_string(),
        event_type: event_type.to_string(),
        target: None,
        message: String::new(),
    });
}

#[test]
fn access_drift_passes_when_unexpected_users_exist() {
    let r = evaluate_access_control_drift(&runtime(vec!["stale".to_string(), "old".to_string()], 0, None));
    assert!(r.passed);
    assert_eq!(r.message, "detected unexpected access users: stale, old");
    assert_eq!(r.impact_level, None);
    let r = evaluate_access_control_drift(&runtime(vec![], 0, None));
    assert!(!r.passed);
    assert_eq!(r.message, "no unexpected access users were detected");
    assert_eq!(r.impact_level.as_deref(), Some("high"));
}

#[test]
fn commissioning_checklist_names_the_site() {
    let r = evaluate_commissioning_checklist(&runtime(vec![], 3, Some("hq".to_string())));
    assert_eq!(r.message, "generated 3 commissioning checks for hq");
    let r = evaluate_commissioning_checklist(&runtime(vec![], 2, None));
    assert_eq!(r.message, "generated 2 commissioning checks");
    let r = evaluate_commissioning_checklist(&runtime(vec![], 0, None));
    assert!(!r.passed);
    assert_eq!(r.message, "no commissioning checks were generated");
    assert_eq!(r.impact_level.as_deref(), Some("medium"));
}

#[test]
fn network_panel_check_lists_missing_fault_profiles() {
    let mut state = runtime(vec![], 0, None);
    push(&mut state, "network_segment_isolated");
    push(&mut state, "control_panel_ups_degraded");
    let r = evaluate_network_control_panel_faults(&state);
    assert!(!r.passed);
    assert_eq!(
        r.message,
        "network/control-panel fault evidence incomplete; missing: firewall_policy_drift_detected, control_panel_circuit_protector_tripped, control_panel_redundant_psu_degraded"
    );
    push(&mut state, "firewall_policy_drift_detected");
    push(&mut state, "control_panel_circuit_protector_tripped");
    push(&mut state, "control_panel_redundant_psu_degraded");
    let r = evaluate_network_control_panel_faults(&state);
    assert!(!r.passed);
    assert_eq!(r.message, "network/control-panel fault evidence incomplete; missing: ");
    let mut evidence = StrMap::new();
    evidence.insert("bms_evidence".to_string(), text("recorded"));
    state.states.insert("panel".to_string(), evidence);
    let r = evaluate_network_control_panel_faults(&state);
    assert!(r.passed);
    assert_eq!(r.message, "network and control-panel fault profiles produced BMS evidence");
}

#[test]
fn comfort_timeseries_needs_two_readings_and_a_comfort_state() {
    let mut state = runtime(vec![], 0, None);
    push(&mut state, "comfort_sensor_reading_recorded");
    assert!(!evaluate_comfort_timeseries(&state).passed);
    push(&mut state, "comfort_sensor_reading_recorded");
    push(&mut state, "comfort_sensor_reading_recorded");
    let r = evaluate_comfort_timeseries(&state);
    assert!(!r.passed);
    assert_eq!(r.message, "comfort time-series replay did not produce enough sensor evidence");
    state.states.insert("comfort.living".to_string(), StrMap::new());
    let r = evaluate_comfort_timeseries(&state);
    assert!(r.passed);
    assert_eq!(r.message, "3 comfort sensor readings were replayed");
}

#[test]
fn intercom_evidence_must_not_control_a_real_unlock() {
    let mut state = runtime(vec![], 0, None);
    push(&mut state, "intercom_call_answered");
    assert!(!evaluate_intercom_relay_evidence(&state).passed);
    push(&mut state, "relay_pulse_requested");
    let r = evaluate_intercom_relay_evidence(&state);
    assert!(r.passed);
    assert_eq!(r.message, "intercom and relay evidence was captured without controlling a real unlock");
    let mut door = StrMap::new();
    door.insert("real_unlock_controlled".to_string(), Value::Bool(true));
    state.states.insert("intercom.front".to_string(), door);
    let r = evaluate_intercom_relay_evidence(&state);
    assert!(!r.passed);
    assert_eq!(r.impact_level.as_deref(), Some("high"));
}

#[test]
fn dali_scene_partial_failure_is_detected() {
    let state = runtime(vec![], 0, None);
    let r = evaluate_scene_consistency(&state, "welcome");
    assert!(!r.passed);
    assert_eq!(r.name, "scene_consistency:welcome");
    assert_eq!(r.message, "DALI-like scene consistency violation: D1 expected level 60, actual 0");
    assert_eq!(r.impact_message.as_deref(), Some("Lighting scene did not match intended guest ambience."));
    let r = evaluate_scene_consistency(&state, "sleep");
    assert_eq!(r.message, "scene sleep is not defined");
    assert_eq!(r.impact_message.as_deref(), Some("Scene mapping is missing from the scenario."));
    let inline = ValidatedInlineAssertionKind::SceneConsistencyComplete(SceneId(
        Identifier::parse("assertions[].assert.scene", "welcome").unwrap(),
    ));
    assert!(!evaluate_inline_assertion(&state, &inline).passed);
}

#[test]
fn guest_experience_field_needs_the_local_broker() {
    let mut state = runtime(vec![], 0, None);
    let r = evaluate_guest_experience_field(&state, Condition::Unaffected);
    assert!(r.passed);
    assert_eq!(r.message, "guest experience remained unaffected by upstream outage");
    state.broker.set_online("mqtt.local", false);
    let r = evaluate_guest_experience_field(&state, Condition::Unaffected);
    assert!(!r.passed);
    assert_eq!(r.message, "guest experience was affected");
}

#[test]
fn mqtt_retained_assertion_compares_json_payloads() {
    let mut state = runtime(vec![], 0, None);
    let mut expected = StrMap::new();
    expected.insert("lock_state".to_string(), text("unlocked"));
    let assertion = ValidatedMqttAssertion {
        topic: MqttTopic::parse("assertions[].mqtt.topic", "hotel/device/lock_101/state").unwrap(),
        retained: expected,
    };
    let r = evaluate_mqtt_retained(&state, &assertion);
    assert!(!r.passed);
    assert_eq!(r.name, "mqtt_retained:hotel/device/lock_101/state");
    assert_eq!(r.message, "retained MQTT state mismatch");
    let mut payload = StrMap::new();
    payload.insert("lock_state".to_string(), text("unlocked"));
    let step = ValidatedMqttPublishStep::try_from_step(MqttPublishStep {
        client: "guest_app".to_string(),
        topic: "hotel/device/lock_101/command".to_string(),
        payload,
    })
    .unwrap();
    state.apply_mqtt_publish(1_000, &step);
    let r = evaluate_mqtt_retained(&state, &assertion);
    assert!(r.passed);
    assert_eq!(r.message, "retained MQTT state matched");
}

#[test]
fn modbus_register_assertion_matches_exact_or_readable_values() {
    let state = runtime(vec![], 0, None);
    let exact = ValidatedModbusAssertion {
        device: DeviceId(Identifier::parse("assertions[].modbus.device", "floor_heating").unwrap()),
        register: 40001,
        value: Some(Value::UInt(245)),
        readable_value: None,
    };
    let r = evaluate_modbus_register(&state, &exact, false);
    assert!(r.passed);
    assert_eq!(r.name, "modbus:floor_heating:40001");
    let wrong = ValidatedModbusAssertion { value: Some(Value::Int(240)), ..exact };
    let r = evaluate_modbus_register(&state, &wrong, true);
    assert!(!r.passed);
    assert_eq!(r.message, "Modbus register mismatch");
    let readable = ValidatedModbusAssertion { value: None, readable_value: Some(24.5f64.to_bits()), ..wrong };
    assert!(evaluate_modbus_register(&state, &readable, true).passed);
    assert!(!evaluate_modbus_register(&state, &readable, false).passed);
}

#[test]
fn ops_assertion_reports_unsupported_keys() {
    let state = runtime(vec![], 0, None);
    let mut ops = StrMap::new();
    ops.insert("unknown".to_string(), Value::Bool(true));
    let r = evaluate_ops(&state, &ops);
    assert!(!r.passed);
    assert_eq!(r.message, "unsupported ops assertion unknown");
    assert_eq!(r.impact_level.as_deref(), Some("unknown"));
    assert!(evaluate_ops(&state, &StrMap::new()).passed);
}

#[test]
fn assertions_dispatch_by_kind() {
    let state = runtime(vec!["stale".to_string()], 1, None);
    let drift = ValidatedAssertionKind::Inline(ValidatedInlineAssertionKind::AccessControlDriftDetected);
    assert!(evaluate_assertion(&state, &drift, false).passed);
    let comfort = ValidatedAssertionKind::TargetCondition(
        ValidatedTargetConditionAssertion::LivingAreaDiscomfortIndex {
            condition: Condition::Between { min: 0, max: 0 },
        },
    );
    assert!(evaluate_assertion(&state, &comfort, true).passed);
    assert!(!evaluate_assertion(&state, &comfort, false).passed);
    let guest = ValidatedAssertionKind::GuestExperienceField(Condition::Unaffected);
    assert_eq!(evaluate_assertion(&state, &guest, false).name, "guest_experience");
}

#[test]
fn modbus_write_step_updates_the_register() {
    let mut state = runtime(vec![], 0, None);
    state.apply_modbus_write(0, "floor_heating", 40001, Value::Int(250), "250");
    assert_eq!(state.timeline[0].event_type, "modbus_write");
    assert_eq!(state.timeline[0].message, "register 40001 set to 250");
    assert_eq!(state.modbus.value("floor_heating", 40001), Some(&Value::Int(250)));
}

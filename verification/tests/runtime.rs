use roomci::device::{ContactModel, LightingModel};
use roomci::edge::EdgeModel;
use roomci::modbus::ModbusModel;
use roomci::ops::OpsModel;
use roomci::report::TimelineEvent;
use roomci::runtime::{
    format_duration, Condition, IntercomStep, MqttPublishStep, RuntimeDevice, RuntimeState,
    ValidatedIntercomStep, ValidatedMqttPublishStep, ValidatedTargetConditionAssertion,
};
use roomci::scenario::{CommandTarget, FaultStep, ValidatedFaultKind};
use roomci::strmap::StrMap;
use roomci::value::Value;

fn text(s: &str) -> Value {
    Value::Str(s.to_string())
}

fn lighting() -> LightingModel {
    let mut config = StrMap::new();
    config.insert(
        "fixtures".to_string(),
        Value::List(vec![
            Value::Mapping(vec![(text("id"), text("D1")), (text("level"), Value::Int(0))]),
            Value::Mapping(vec![(text("id"), text("D2")), (text("level"), Value::Int(0))]),
        ]),
    );
    let mut targets = StrMap::new();
    targets.insert("D1".to_string(), 60);
    targets.insert("D2".to_string(), 40);
    let mut scenes = StrMap::new();
    scenes.insert("welcome".to_string(), targets);
    LightingModel::try_from_config(&config, &scenes).unwrap()
}

fn contacts() -> ContactModel {
    let mut config = StrMap::new();
    config.insert(
        "inputs".to_string(),
        Value::List(vec![Value::Mapping(vec![(text("id"), text("sauna_button"))])]),
    );
    ContactModel::try_from_config(&config).unwrap()
}

fn ops() -> OpsModel {
    let mut alert = StrMap::new();
    alert.insert("id".to_string(), text("sauna_alert"));
    alert.insert("source".to_string(), text("contact.sauna_button"));
    alert.insert(
        "notify".to_string(),
        Value::Mapping(vec![(text("slack"), Value::Bool(true))]),
    );
    OpsModel::from_config(&vec![alert])
}

fn runtime() -> RuntimeState {
    let mut lock_state = StrMap::new();
    lock_state.insert("lock_state".to_string(), text("locked"));
    let devices = vec![RuntimeDevice {
        id: "lock_101".to_string(),
        state: lock_state,
        protocol: Some("mqtt".to_string()),
    }];
    RuntimeState::new(
        &devices,
        true,
        EdgeModel::default(),
        Some(30_000),
        None,
        None,
        ModbusModel::default(),
        lighting(),
        contacts(),
        ops(),
        vec!["stale_user".to_string()],
        3,
        Some("hq".to_string()),
    )
}

fn fault(target: &str, fault_type: &str) -> ValidatedFaultKind {
    ValidatedFaultKind::try_from_fault(&FaultStep {
        at: None,
        target: target.to_string(),
        fault_type: fault_type.to_string(),
        duration: None,
        severity: None,
        topic: None,
        count: None,
    })
    .unwrap()
}

fn kinds(timeline: &[TimelineEvent]) -> Vec<&str> {
    timeline.iter().map(|event| event.event_type.as_str()).collect()
}

#[test]
fn durations_read_as_offsets_from_the_start() {
    assert_eq!(format_duration(0), "T");
    assert_eq!(format_duration(15_000), "T+15s");
    assert_eq!(format_duration(120_000), "T+2m");
    assert_eq!(format_duration(-60_000), "T-1m");
    assert_eq!(format_duration(90_000), "T+90s");
    assert_eq!(format_duration(500), "T+0s");
}

#[test]
fn edge_power_loss_fails_over_and_is_timely() {
    let mut state = runtime();
    state.apply_fault(10_000, &fault("edge.primary", "power_lost"));

    assert_eq!(kinds(&state.timeline), vec!["edge_failover", "fault_activated"]);
    assert_eq!(state.timeline[0].at, "T+10s");
    assert_eq!(state.timeline[0].target.as_deref(), Some("edge_secondary"));
    assert_eq!(state.timeline[0].message, "edge failover completed from edge_primary");
    assert_eq!(state.timeline[1].message, "power_lost fault activated");

    let result = state.evaluate_target_condition(
        &ValidatedTargetConditionAssertion::EdgeSecondary { condition: Condition::Active },
        false,
    );
    assert!(result.passed);
    assert_eq!(result.message, "secondary edge server is active");
    assert_eq!(result.impact_level, None);
}

#[test]
fn wan_failover_notifies_ops_and_activates_backup() {
    let mut state = runtime();
    state.apply_fault(0, &fault("wan.primary", "down"));

    assert_eq!(
        kinds(&state.timeline),
        vec!["wan_failover", "ops_slack_notification_sent", "fault_activated"]
    );
    assert_eq!(state.timeline[1].target.as_deref(), Some("wan_failover"));
    assert_eq!(state.wan_backup_status.as_deref(), Some("active"));
    let result = state.evaluate_target_condition(
        &ValidatedTargetConditionAssertion::WanBackup { condition: Condition::Active },
        false,
    );
    assert!(result.passed);
}

#[test]
fn broker_offline_fault_makes_the_broker_unavailable() {
    let mut state = runtime();
    state.apply_fault(0, &fault("mqtt.local", "offline"));

    let result = state.evaluate_target_condition(
        &ValidatedTargetConditionAssertion::MqttLocal { condition: Condition::Available },
        false,
    );
    assert!(!result.passed);
    assert_eq!(result.message, "local MQTT broker is unavailable");
    assert_eq!(result.impact_level.as_deref(), Some("high"));
}

#[test]
fn fault_profiles_record_bms_evidence() {
    let mut state = runtime();
    state.apply_fault(5_000, &fault("firewall.policy.guest_vlan", "drift"));

    assert_eq!(
        kinds(&state.timeline),
        vec!["firewall_policy_drift_detected", "ops_slack_notification_sent", "fault_activated"]
    );
    let profile = state.states.get("firewall.policy.guest_vlan").unwrap();
    assert_eq!(profile.get("status"), Some(&text("faulted")));
    assert_eq!(profile.get("fault_profile"), Some(&text("firewall_policy_drift_detected")));
    assert_eq!(profile.get("bms_evidence"), Some(&text("recorded")));
    assert_eq!(state.timeline[0].message, "firewall policy guest_vlan drift detected");
}

#[test]
fn unknown_dali_fixture_fault_is_rejected() {
    let mut state = runtime();
    state.apply_fault(0, &fault("dali.fixture.D9", "command_drop"));

    assert_eq!(kinds(&state.timeline), vec!["fault_rejected"]);
    assert_eq!(state.timeline[0].message, "unknown DALI fixture D9");
}

#[test]
fn scene_activation_records_levels_and_drops() {
    let mut state = runtime();
    state.apply_fault(0, &fault("dali.fixture.D1", "command_drop"));
    state.apply_command(1_000, &CommandTarget::parse("scene.welcome").unwrap(), "activate");

    assert_eq!(
        kinds(&state.timeline),
        vec![
            "fault_activated",
            "command_received",
            "dali_command_dropped",
            "dali_level_changed",
            "scene_activation_requested",
        ]
    );
    assert_eq!(state.timeline[1].target.as_deref(), Some("scene.welcome"));
    assert_eq!(state.timeline[1].message, "activate command received");
    assert_eq!(state.timeline[3].message, "fixture level changed to 40");
}

#[test]
fn unknown_scene_activation_fails_but_is_still_requested() {
    let mut state = runtime();
    state.activate_scene(0, "party");
    assert_eq!(kinds(&state.timeline), vec!["scene_activation_failed", "scene_activation_requested"]);
    assert_eq!(state.timeline[0].message, "unknown DALI scene party");
}

#[test]
fn intercom_observations_are_recorded_with_fallbacks() {
    let mut state = runtime();
    let step = ValidatedIntercomStep::try_from_step(&IntercomStep {
        id: "front_door".to_string(),
        event: "pin_check".to_string(),
        outcome: "rejected".to_string(),
        fallback: Some("staff call".to_string()),
    })
    .unwrap();
    state.apply_intercom_step(0, &step);

    assert_eq!(kinds(&state.timeline), vec!["intercom_pin_rejected", "intercom_fallback_used"]);
    assert_eq!(
        state.timeline[0].message,
        "intercom safe mock observed pin_check with outcome rejected"
    );
    let recorded = state.states.get("intercom.front_door").unwrap();
    assert_eq!(recorded.get("real_unlock_controlled"), Some(&Value::Bool(false)));
    assert_eq!(recorded.get("fallback"), Some(&text("staff call")));
}

#[test]
fn mqtt_publish_updates_retained_state_through_the_edge() {
    let mut state = runtime();
    let mut payload = StrMap::new();
    payload.insert("lock_state".to_string(), text("unlocked"));
    let step = ValidatedMqttPublishStep::try_from_step(MqttPublishStep {
        client: "guest_app".to_string(),
        topic: "hotel/device/lock_101/command".to_string(),
        payload,
    })
    .unwrap();
    state.apply_mqtt_publish(2_000, &step);

    assert_eq!(
        kinds(&state.timeline),
        vec!["mqtt_publish", "edge_command_routed", "mqtt_retained_state_updated"]
    );
    assert_eq!(
        state.timeline[1].message,
        "mqtt_command_route routed command from guest_app to lock_101"
    );
    assert_eq!(
        state.timeline[2].message,
        "retained state updated at hotel/device/lock_101/state after 1 delivery"
    );
    assert_eq!(state.states.get("lock_101").unwrap().get("lock_state"), Some(&text("unlocked")));
}

#[test]
fn duplicate_delivery_fault_counts_at_least_two_deliveries() {
    let mut state = runtime();
    let duplicate = ValidatedFaultKind::try_from_fault(&FaultStep {
        at: None,
        target: "mqtt.local".to_string(),
        fault_type: "duplicate_delivery".to_string(),
        duration: None,
        severity: None,
        topic: Some("hotel/device/lock_101/command".to_string()),
        count: Some(1),
    })
    .unwrap();
    state.apply_fault(0, &duplicate);
    let step = ValidatedMqttPublishStep::try_from_step(MqttPublishStep {
        client: "guest_app".to_string(),
        topic: "hotel/device/lock_101/command".to_string(),
        payload: StrMap::new(),
    })
    .unwrap();
    state.apply_mqtt_publish(1_000, &step);

    assert_eq!(
        state.timeline.last().unwrap().message,
        "retained state updated at hotel/device/lock_101/state after 2 deliveries"
    );
}

#[test]
fn non_device_topic_publish_fails() {
    let mut state = runtime();
    let step = ValidatedMqttPublishStep::try_from_step(MqttPublishStep {
        client: "guest_app".to_string(),
        topic: "hotel/announcements".to_string(),
        payload: StrMap::new(),
    })
    .unwrap();
    state.apply_mqtt_publish(0, &step);
    assert_eq!(kinds(&state.timeline), vec!["mqtt_publish", "mqtt_publish_failed"]);
    assert_eq!(
        state.timeline[1].message,
        "topic is not a device command topic: hotel/announcements"
    );
}

#[test]
fn contact_on_fires_the_alert() {
    let mut state = runtime();
    state.apply_contact_step(0, "sauna_button", "on").unwrap();
    assert_eq!(
        kinds(&state.timeline),
        vec!["contact_changed", "ops_ticket_opened", "ops_slack_notification_sent"]
    );
    assert_eq!(state.timeline[1].message, "Ops ticket opened with status open");

    assert!(state.apply_contact_step(0, "missing", "on").is_err());
}

#[test]
fn guest_experience_and_user_override_conditions() {
    let state = runtime();
    let guest = state.evaluate_target_condition(
        &ValidatedTargetConditionAssertion::GuestExperience { condition: Condition::Unaffected },
        false,
    );
    assert!(guest.passed);
    let override_result = state.evaluate_target_condition(
        &ValidatedTargetConditionAssertion::UserOverride { condition: Condition::False },
        false,
    );
    assert!(override_result.passed);
    let comfort = state.evaluate_target_condition(
        &ValidatedTargetConditionAssertion::LivingAreaDiscomfortIndex {
            condition: Condition::Between { min: 60f64.to_bits(), max: 75f64.to_bits() },
        },
        false,
    );
    assert!(!comfort.passed);
    assert_eq!(comfort.impact_level.as_deref(), Some("medium"));
}

#[test]
fn ops_acknowledgement_acknowledges_open_tickets() {
    let mut state = runtime();
    state.apply_contact_step(0, "sauna_button", "on").unwrap();
    state.apply_ops_step(5_000, true, Some("alice".to_string()));
    let tail: Vec<&str> = kinds(&state.timeline)[3..].to_vec();
    assert_eq!(tail, vec!["ops_ticket_acknowledged", "ops_action"]);
    assert_eq!(state.timeline[3].message, "Ops ticket acknowledged by alice");
    assert_eq!(state.timeline[3].at, "T+5s");
    state.apply_ops_step(6_000, false, None);
    assert_eq!(state.timeline.last().unwrap().message, "ops action applied");
    state.apply_automation_started(7_000);
    assert_eq!(state.timeline.last().unwrap().event_type, "automation_started");
}

#[test]
fn modbus_write_records_the_written_value_or_the_refusal() {
    let mut state = runtime();
    state.apply_modbus_write(0, "boiler", 40001, Value::Int(1), "1");
    assert_eq!(kinds(&state.timeline), vec!["modbus_write_rejected"]);
    assert_eq!(state.timeline[0].message, "unknown Modbus device boiler");
    assert_eq!(state.timeline[0].target.as_deref(), Some("boiler"));
}

use roomci::modbus::ModbusModel;
use roomci::mqtt_contract::{
    default_device_id_strategy, default_mqtt_adapter, MqttConnectionContract, MqttPayloadExpectation,
    MqttPayloadFieldConstraint, MqttPayloadFieldType,
};
use roomci::report::{RunReport, RunResult, TimelineEvent};
use roomci::serve_state::{
    extract_placeholder_value, health_status_code, match_contract, path_without_query, route,
    BmsContactError, Route, ServeState,
};
use roomci::strmap::StrMap;
use roomci::value::Value;

fn text(s: &str) -> Value {
    Value::Str(s.to_string())
}

fn object(entries: &[(&str, Value)]) -> Value {
    Value::Mapping(entries.iter().map(|(k, v)| (text(k), v.deep_clone())).collect())
}

fn report(result: RunResult) -> RunReport {
    let mut state = StrMap::new();
    state.insert("power".to_string(), text("off"));
    let mut final_state = StrMap::new();
    final_state.insert("lamp-1".to_string(), state);
    RunReport {
        schema_version: "roomci.report.v1".to_string(),
        run_id: "run-1".to_string(),
        generated_by: "roomci".to_string(),
        scenario_name: "generic_mqtt_retained_state".to_string(),
        result,
        timeline: vec![TimelineEvent {
            at: "T".to_string(),
            event_type: "event".to_string(),
            target: None,
            message: "start".to_string(),
        }],
        assertions: vec![],
        final_state,
        retained_messages: StrMap::new(),
    }
}

fn state() -> ServeState {
    ServeState::new(report(RunResult::Passed), ModbusModel::default(), Vec::new())
}

fn contract(required: &[&str]) -> MqttConnectionContract {
    MqttConnectionContract {
        name: "lamp".to_string(),
        adapter: default_mqtt_adapter(),
        command_topic: "devices/{device_id}/set".to_string(),
        state_topic: "devices/{device_id}/state".to_string(),
        device_id_from_topic: default_device_id_strategy(),
        payload: MqttPayloadExpectation {
            required_fields: required.iter().map(|f| f.to_string()).collect(),
            optional_fields: Vec::new(),
            fields: StrMap::new(),
        },
    }
}

fn payload(power: &str) -> StrMap<Value> {
    let mut p = StrMap::new();
    p.insert("power".to_string(), text(power));
    p
}

#[test]
fn routes_follow_method_and_path_without_query() {
    assert_eq!(route("GET", "/health"), Route::Health);
    assert_eq!(route("GET", "/reports/latest?format=json"), Route::ReportJson);
    assert_eq!(route("GET", "/reports/latest.json"), Route::ReportJson);
    assert_eq!(route("GET", "/reports/latest.md"), Route::ReportMarkdown);
    assert_eq!(route("GET", "/reports/latest.junit.xml"), Route::ReportJunit);
    assert_eq!(route("POST", "/external/bms/contact"), Route::BmsContact);
    assert_eq!(route("POST", "/run"), Route::Run);
    assert_eq!(route("GET", "/run"), Route::NotFound);
    assert_eq!(route("GET", "/missing"), Route::NotFound);
    assert_eq!(path_without_query("/state?x=1?y"), "/state");
    assert_eq!(path_without_query("/state"), "/state");
}

#[test]
fn health_reports_idle_running_passed_and_failed_states() {
    let mut s = state();
    assert_eq!(s.health_status(), "idle");
    assert!(s.begin_run());
    assert_eq!(s.health_status(), "running");
    assert!(!s.begin_run());
    assert_eq!(s.complete_run(report(RunResult::Failed)), RunResult::Failed);
    assert_eq!(s.health_status(), "failed");
    assert_eq!(health_status_code(s.health_status()), 503);
    assert!(s.begin_run());
    s.complete_run(report(RunResult::Passed));
    assert_eq!(s.health_status(), "passed");
    assert_eq!(health_status_code("passed"), 200);
}

#[test]
fn aborted_run_releases_the_run_flag() {
    let mut s = state();
    assert!(s.begin_run());
    s.abort_run();
    assert!(!s.run_in_progress);
    assert!(!s.has_completed_run);
}

#[test]
fn finish_marks_the_run_completed() {
    let mut s = state();
    assert_eq!(s.finish(), (RunResult::Passed, 0));
    assert!(s.has_completed_run);
    assert_eq!(s.health_status(), "passed");
}

#[test]
fn external_bms_contact_updates_state_and_timeline() {
    let mut s = state();
    let contact = object(&[
        ("source", text("contact.sauna_emergency_button")),
        ("state", text("on")),
        ("severity", text("critical")),
    ]);
    let (source, st) = s.record_bms_contact(&contact).unwrap();
    assert_eq!((source.as_str(), st.as_str()), ("contact.sauna_emergency_button", "on"));
    let observation = s.external_observations.get("contact.sauna_emergency_button").unwrap();
    assert_eq!(observation.get("severity"), Some(&text("critical")));
    let event = &s.external_observation_timeline[0];
    assert_eq!(event.at, "external#bms1");
    assert_eq!(event.event_type, "external_bms_contact_observed");
    assert_eq!(event.message, "external BMS/contact event observed: contact.sauna_emergency_button=on");
    let rendered = s.rendered_report_view();
    assert_eq!(rendered.timeline.len(), 2);
    assert!(rendered.final_state.get("external.bms.contact.sauna_emergency_button").is_some());
}

#[test]
fn external_bms_contact_sanitizes_source_and_message() {
    let mut s = state();
    let contact = object(&[("source", text("weird;value\ninjected")), ("state", text("on\rmore"))]);
    let (source, st) = s.record_bms_contact(&contact).unwrap();
    assert_eq!(source, "weird_value_injected");
    assert_eq!(st, "on_more");
    let message = &s.external_observation_timeline[0].message;
    assert!(!message.contains('\n'));
    assert!(!message.contains('\r'));
    assert_eq!(message, "external BMS/contact event observed: weird;value injected=on more");
}

#[test]
fn external_bms_contact_rejects_invalid_payloads() {
    let mut s = state();
    let missing_source = object(&[("state", text("on")), ("severity", text("critical"))]);
    assert_eq!(s.record_bms_contact(&missing_source), Err(BmsContactError::MissingSource));
    let missing_state = object(&[("source", text("contact.sauna_emergency_button"))]);
    assert_eq!(s.record_bms_contact(&missing_state), Err(BmsContactError::MissingState));
    let non_string_source = object(&[("source", Value::Int(42)), ("state", text("on"))]);
    let err = s.record_bms_contact(&non_string_source).unwrap_err();
    assert_eq!((err.code(), err.status()), ("missing_source", 400));
    assert_eq!(s.external_observations.len(), 0);
    assert!(s.external_observation_timeline.is_empty());
}

#[test]
fn external_bms_contact_enforces_severity_schema_and_replay_id() {
    let mut s = state();
    let invalid_severity = object(&[
        ("source", text("contact.sauna_emergency_button")),
        ("state", text("on")),
        ("severity", text("page-now")),
    ]);
    let err = s.record_bms_contact(&invalid_severity).unwrap_err();
    assert_eq!((err.code(), err.status()), ("invalid_severity", 400));
    let invalid_schema = object(&[
        ("source", text("contact.sauna_emergency_button")),
        ("state", text("on")),
        ("schema_version", Value::Int(1)),
    ]);
    let err = s.record_bms_contact(&invalid_schema).unwrap_err();
    assert_eq!((err.code(), err.status()), ("invalid_schema_version", 400));
    let accepted = object(&[
        ("source", text("contact.sauna_emergency_button")),
        ("state", text("on")),
        ("severity", text("critical")),
        ("schema_version", text("bms.alert.v1")),
        ("replay_id", text("event-001")),
    ]);
    assert!(s.record_bms_contact(&accepted).is_ok());
    let err = s.record_bms_contact(&accepted).unwrap_err();
    assert_eq!((err.code(), err.status()), ("duplicate_replay_id", 409));
    assert_eq!(s.external_observation_timeline.len(), 1);
}

#[test]
fn external_events_survive_run_boundary() {
    let mut s = state();
    let contact = object(&[("source", text("contact.sauna_emergency_button")), ("state", text("on"))]);
    s.record_bms_contact(&contact).unwrap();
    let fault = object(&[("target", text("mqtt.local")), ("type", text("offline"))]);
    s.record_fault(fault, "{\"target\":\"mqtt.local\",\"type\":\"offline\"}");
    assert_eq!(s.external_observation_timeline[1].at, "external#fault1");
    assert_eq!(s.external_observation_timeline[1].target.as_deref(), Some("mqtt.local"));
    assert!(s.begin_run());
    assert_eq!(s.complete_run(report(RunResult::Passed)), RunResult::Passed);
    assert!(s.injected_faults.is_empty());
    assert!(s.external_observation_timeline.is_empty());
    let rendered = s.rendered_report_view();
    let types: Vec<&str> = rendered.timeline.iter().map(|e| e.event_type.as_str()).collect();
    assert_eq!(types, vec!["event", "external_bms_contact_observed", "external_fault_injected"]);
    assert!(rendered.final_state.get("external.bms.contact.sauna_emergency_button").is_some());
}

/// The device-state contract of the generic retained-state scenario.
fn env_sensor_contract() -> MqttConnectionContract {
    let mut fields = StrMap::new();
    fields.insert(
        "online".to_string(),
        MqttPayloadFieldConstraint {
            field_type: MqttPayloadFieldType::Boolean,
            enum_values: Vec::new(),
            minimum: None,
            maximum: None,
        },
    );
    fields.insert(
        "sample_interval_seconds".to_string(),
        MqttPayloadFieldConstraint {
            field_type: MqttPayloadFieldType::Integer,
            enum_values: Vec::new(),
            minimum: None,
            maximum: None,
        },
    );
    MqttConnectionContract {
        name: "device_state".to_string(),
        adapter: default_mqtt_adapter(),
        command_topic: "fleet/demo/site/lab/device/{device_id}/command".to_string(),
        state_topic: "fleet/demo/site/lab/device/{device_id}/state".to_string(),
        device_id_from_topic: default_device_id_strategy(),
        payload: MqttPayloadExpectation {
            required_fields: vec!["online".to_string(), "sample_interval_seconds".to_string()],
            optional_fields: Vec::new(),
            fields,
        },
    }
}

fn json_payload(entries: &[(&str, Value)]) -> StrMap<Value> {
    let mut m = StrMap::new();
    for (k, v) in entries {
        m.insert(k.to_string(), v.deep_clone());
    }
    m
}

#[test]
fn external_mqtt_publish_updates_and_rejects_by_contract() {
    let mut s = state();
    let contracts = vec![env_sensor_contract()];
    let no_verdicts: Vec<Vec<Option<String>>> = Vec::new();
    let topic = "fleet/demo/site/lab/device/env_sensor_01/command";
    s.apply_external_mqtt_publish(
        &contracts,
        topic,
        json_payload(&[("online", Value::Bool(true)), ("sample_interval_seconds", Value::Int(15))]),
        &no_verdicts,
    );
    assert_eq!(s.external_publish_count, 1);
    assert!(s.external_mqtt_final_state.contains_key("env_sensor_01"));
    assert!(s
        .external_mqtt_retained_state
        .contains_key("fleet/demo/site/lab/device/env_sensor_01/state"));

    s.apply_external_mqtt_publish(&contracts, topic, json_payload(&[("online", Value::Bool(true))]), &no_verdicts);
    s.apply_external_mqtt_publish(&contracts, "unknown/topic", StrMap::new(), &no_verdicts);
    s.apply_external_mqtt_publish(
        &contracts,
        topic,
        json_payload(&[("online", text("yes")), ("sample_interval_seconds", Value::Int(15))]),
        &no_verdicts,
    );

    let timeline: Vec<String> = s
        .rendered_report_view()
        .timeline
        .iter()
        .map(|e| format!("{} {}", e.event_type, e.message))
        .collect();
    let timeline = timeline.join("\n");
    assert!(timeline.contains("external_mqtt_retained_state_updated"));
    assert!(timeline.contains("payload missing required fields"));
    assert!(timeline.contains("topic did not match"));
    assert!(timeline.contains("payload field online is invalid"));
    assert!(timeline.contains("expected boolean"));
}

#[test]
fn external_mqtt_publish_counts_and_names_the_rejection() {
    let mut s = state();
    let contracts = vec![contract(&["power"])];
    let no_verdicts: Vec<Vec<Option<String>>> = Vec::new();
    s.apply_external_mqtt_publish(&contracts, "devices/lamp-1/set", payload("on"), &no_verdicts);
    assert_eq!(s.external_observation_timeline[0].at, "external#1");
    assert_eq!(
        s.external_observation_timeline[0].message,
        "external MQTT publish matched lamp and updated retained state at devices/lamp-1/state"
    );
    assert_eq!(s.final_state_view().get("lamp-1").unwrap().get("power"), Some(&text("on")));
    s.apply_external_mqtt_publish(&contracts, "devices/lamp-2/set", StrMap::new(), &no_verdicts);
    assert_eq!(s.external_observation_timeline[1].message, "payload missing required fields for lamp: power");
    assert!(s.final_state_view().get("lamp-2").is_none());
    let verdicts = vec![vec![Some("value 3 is above maximum 2".to_string())]];
    let mut ranged = contract(&["power"]);
    ranged.payload.fields.insert(
        "power".to_string(),
        MqttPayloadFieldConstraint {
            field_type: MqttPayloadFieldType::String,
            enum_values: Vec::new(),
            minimum: None,
            maximum: None,
        },
    );
    s.apply_external_mqtt_publish(&vec![ranged], "devices/lamp-3/set", payload("on"), &verdicts);
    assert_eq!(
        s.external_observation_timeline[2].message,
        "payload field power is invalid for lamp: value 3 is above maximum 2"
    );
    assert!(s.final_state_view().get("lamp-3").is_none());
    assert_eq!(s.external_publish_count, 3);
}

#[test]
fn external_mqtt_retained_state_survives_run_boundary() {
    let mut s = state();
    let contracts = vec![contract(&[])];
    s.apply_external_mqtt_publish(&contracts, "devices/lamp-1/set", payload("on"), &Vec::new());
    assert!(s.begin_run());
    s.complete_run(report(RunResult::Passed));
    assert_eq!(s.external_publish_count, 0);
    assert_eq!(
        s.latest_report.final_state.get("lamp-1").unwrap().get("power"),
        Some(&text("on"))
    );
    assert_eq!(
        s.latest_report.retained_messages.get("devices/lamp-1/state").unwrap().get("power"),
        Some(&text("on"))
    );
}

#[test]
fn mqtt_helpers_parse_and_match_contracts() {
    assert_eq!(
        extract_placeholder_value("devices/{device_id}/set", "devices/lamp-1/set", "{device_id}"),
        Some("lamp-1".to_string())
    );
    assert_eq!(extract_placeholder_value("devices/{device_id}/set", "devices//set", "{device_id}"), None);
    assert_eq!(extract_placeholder_value("devices/{device_id}/set", "devices/a/b/set", "{device_id}"), None);
    assert_eq!(extract_placeholder_value("devices/set", "devices/set", "{device_id}"), None);
    assert_eq!(
        match_contract(&contract(&[]), "devices/lamp-1/set"),
        Some(("lamp-1".to_string(), "devices/lamp-1/state".to_string()))
    );
    assert_eq!(match_contract(&contract(&[]), "devices/lamp-1/get"), None);
}

fn subscribe_payload(packet_id: u16, topic: &str, qos: u8) -> Vec<u8> {
    let mut p = packet_id.to_be_bytes().to_vec();
    p.extend_from_slice(&(topic.len() as u16).to_be_bytes());
    p.extend_from_slice(topic.as_bytes());
    p.push(qos);
    p
}

#[test]
fn mqtt_subscribe_rejects_unsupported_qos() {
    let s = state();
    let contracts = vec![contract(&[])];
    let subscribe =
        roomci::serve::parse_mqtt_subscribe(&subscribe_payload(9, "devices/lamp-1/state", 1)).unwrap();
    assert_eq!(subscribe.packet_id, 9);
    let codes: Vec<u8> = subscribe
        .filters
        .iter()
        .map(|f| if s.replay_for_filter(&contracts, f).is_some() { 0x00 } else { 0x80 })
        .collect();
    assert_eq!(codes, vec![0x80]);
}

#[test]
fn retained_replay_answers_contract_filters_in_topic_order() {
    let mut s = state();
    let contracts = vec![contract(&[])];
    s.apply_external_mqtt_publish(&contracts, "devices/lamp-2/set", payload("on"), &Vec::new());
    s.apply_external_mqtt_publish(&contracts, "devices/lamp-1/set", payload("off"), &Vec::new());
    let replay = s.replay_for_filter(&contracts, "devices/+/state").unwrap();
    let topics: Vec<&str> = replay.iter().map(|(t, _)| t.as_str()).collect();
    assert_eq!(topics, vec!["devices/lamp-1/state", "devices/lamp-2/state"]);
    assert_eq!(replay[1].1.get("power"), Some(&text("on")));
    let exact = s.replay_for_filter(&contracts, "devices/{device_id}/state").unwrap();
    assert!(exact.is_empty());
    assert!(s.replay_for_filter(&contracts, "other/+").is_none());
    assert!(s.replay_for_filter(&contracts, "").is_none());
    assert!(s.replay_for_filter(&Vec::new(), "devices/+/state").is_none());
    let matched = s.replay_for_filter(&contracts, "devices/lamp-1/+").unwrap();
    assert_eq!(matched.len(), 1);
}

#[test]
fn second_run_while_first_in_flight_returns_409() {
    let mut s = state();
    s.run_in_progress = true;
    assert_eq!(route("POST", "/run"), Route::Run);
    assert!(!s.begin_run());
    assert!(s.run_in_progress);
    assert!(s.injected_faults.is_empty());
    let response = roomci::serve::raw_response(
        409,
        "application/json",
        "{\"error\":\"run_in_progress\",\"message\":\"a scenario run is already in progress\"}",
    );
    assert!(response.contains("HTTP/1.1 409 Conflict"));
    assert!(response.contains("run_in_progress"));
}

#[test]
fn http_router_reports_client_errors() {
    let s = state();

    assert_eq!(route("POST", "/fault"), Route::Fault);
    assert!(serde_json::from_str::<serde_json::Value>("not json").is_err());
    let invalid_json = roomci::serve::raw_response(400, "application/json", "{\"error\":\"invalid_json\"}");
    assert!(invalid_json.contains("HTTP/1.1 400 Bad Request"));
    assert!(invalid_json.contains("invalid_json"));

    assert_eq!(route("GET", "/missing"), Route::NotFound);
    let not_found = roomci::serve::raw_response(404, "application/json", "{\"error\":\"not_found\"}");
    assert!(not_found.contains("HTTP/1.1 404 Not Found"));

    assert_eq!(route("GET", "/reports/latest?format=json"), Route::ReportJson);
    assert_eq!(s.rendered_report_view().scenario_name, "generic_mqtt_retained_state");
}

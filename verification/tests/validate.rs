use roomci::run::EventKind;
use roomci::scenario::ScenarioError;
use roomci::strmap::StrMap;
use roomci::typed::{AssertionDef, StepDef};
use roomci::validate::{validate_scenario, ScenarioDef, ScenarioFacts};
use roomci::value::Value;

fn step(at: &str, event: &str) -> StepDef {
    StepDef {
        at: at.to_string(),
        event: Some(event.to_string()),
        command: None,
        modbus_write: None,
        mqtt_publish: None,
        fault: None,
        contact: None,
        intercom: None,
        sensor_reading: None,
        ops: None,
        automation: None,
    }
}

fn local_broker_available(at: &str) -> AssertionDef {
    AssertionDef {
        at: at.to_string(),
        name: None,
        target: Some("mqtt.local".to_string()),
        condition: Some(Value::Str("available".to_string())),
        mqtt: None,
        modbus: None,
        guest_experience: None,
        ops: None,
        inline_assert: None,
    }
}

fn scenario(name: &str, steps: Vec<StepDef>, assertions: Vec<AssertionDef>) -> ScenarioDef {
    ScenarioDef {
        version: "0.1".to_string(),
        name: name.to_string(),
        devices: Vec::new(),
        scenes: StrMap::new(),
        lighting: StrMap::new(),
        contacts: StrMap::new(),
        edge: StrMap::new(),
        wan: StrMap::new(),
        inputs: StrMap::new(),
        commissioning: StrMap::new(),
        alerts: Vec::new(),
        modbus: StrMap::new(),
        contracts: Vec::new(),
        broker_cloud_enabled: false,
        faults: Vec::new(),
        steps,
        assertions,
    }
}

fn no_facts() -> ScenarioFacts {
    ScenarioFacts { constraint_verdicts: Vec::new(), humidity_in_range: Vec::new(), assertions: Vec::new() }
}

#[test]
fn validation_rejects_empty_assertions_and_bad_names() {
    let error = validate_scenario(&scenario("no_assertions", vec![], vec![]), &no_facts()).err().unwrap();
    assert!(matches!(error, ScenarioError::ScenarioContract { field, .. } if field == "assertions"));
    let error = validate_scenario(&scenario("UpperCamel", vec![], vec![local_broker_available("T+1s")]), &no_facts())
        .err()
        .unwrap();
    assert!(matches!(error, ScenarioError::ScenarioContract { field, .. } if field == "scenario.name"));
}

#[test]
fn validation_orders_steps_before_assertions_in_time() {
    let def = scenario(
        "ordered_run",
        vec![step("T+2s", "late"), step("T+1s", "early")],
        vec![local_broker_available("T+1s")],
    );
    let prepared = validate_scenario(&def, &no_facts()).ok().unwrap();
    let times: Vec<i64> = prepared.events.iter().map(|e| e.at).collect();
    assert_eq!(times, vec![1000, 1000, 2000]);
    assert!(matches!(prepared.events[0].kind, EventKind::Step(_)));
    assert!(matches!(prepared.events[1].kind, EventKind::Assertion(_)));
    assert_eq!(prepared.name, "ordered_run");
}

#[test]
fn validation_reports_bad_time_offsets() {
    let def = scenario("bad_time", vec![step("X+1s", "start")], vec![local_broker_available("T")]);
    let error = validate_scenario(&def, &no_facts()).err().unwrap();
    assert_eq!(error, ScenarioError::InvalidRelativeTime("X+1s".to_string()));
}

fn contact_step(at: &str, id: &str) -> StepDef {
    let mut s = step(at, "unused");
    s.event = None;
    s.contact = Some(roomci::typed::ContactDef { id: id.to_string(), state: "open".to_string() });
    s
}

#[test]
fn validation_keeps_declaration_order_at_equal_times_and_puts_assertions_last() {
    let def = scenario(
        "same_instant",
        vec![step("T+1s", "first"), step("T+1s", "second")],
        vec![local_broker_available("T+1s"), local_broker_available("T")],
    );
    let prepared = validate_scenario(&def, &no_facts()).ok().unwrap();
    let times: Vec<i64> = prepared.events.iter().map(|e| e.at).collect();
    assert_eq!(times, vec![0, 1000, 1000, 1000]);
    assert!(matches!(prepared.events[0].kind, EventKind::Assertion(_)));
    assert!(matches!(&prepared.events[1].kind, EventKind::Step(roomci::run::StepKind::Event(e)) if e == "first"));
    assert!(matches!(&prepared.events[2].kind, EventKind::Step(roomci::run::StepKind::Event(e)) if e == "second"));
    assert!(matches!(prepared.events[3].kind, EventKind::Assertion(_)));
    assert_eq!(prepared.events[3].order, 1);
}

#[test]
fn validation_refuses_steps_with_no_or_two_actions() {
    let mut two = step("T", "start");
    two.sensor_reading = Some("living_room".to_string());
    let def = scenario("two_actions", vec![two], vec![local_broker_available("T")]);
    assert_eq!(validate_scenario(&def, &no_facts()).err().unwrap(), ScenarioError::InvalidStepKind);
    let mut none = step("T", "start");
    none.event = None;
    let def = scenario("no_action", vec![none], vec![local_broker_available("T")]);
    assert_eq!(validate_scenario(&def, &no_facts()).err().unwrap(), ScenarioError::InvalidStepKind);
}

#[test]
fn validation_reports_unknown_contacts_and_unread_humidity() {
    let def = scenario("door_run", vec![contact_step("T", "front_door")], vec![local_broker_available("T")]);
    assert_eq!(
        validate_scenario(&def, &no_facts()).err().unwrap(),
        ScenarioError::DeviceModel(roomci::device::DeviceModelError::UnknownContact("front_door".to_string()))
    );
    let mut reading = step("T", "start");
    reading.event = None;
    reading.sensor_reading = Some("living_room".to_string());
    let def = scenario("humid_run", vec![reading], vec![local_broker_available("T")]);
    assert_eq!(
        validate_scenario(&def, &no_facts()).err().unwrap(),
        ScenarioError::InvalidSensorReading("steps[].sensor_reading.humidity must be between 0 and 100".to_string())
    );
}

#[test]
fn validation_reports_faults_before_steps() {
    let mut def = scenario("fault_first", vec![step("X", "start")], vec![local_broker_available("T")]);
    def.faults.push(roomci::scenario::FaultStep {
        at: Some("T+5s".to_string()),
        target: "toaster".to_string(),
        fault_type: "melted".to_string(),
        duration: None,
        severity: None,
        topic: None,
        count: None,
    });
    assert_eq!(
        validate_scenario(&def, &no_facts()).err().unwrap(),
        ScenarioError::InvalidFaultKind { target: "toaster".to_string(), fault_type: "melted".to_string() }
    );
}

#[test]
fn validation_reports_the_edge_status_it_cannot_read() {
    let mut def = scenario("edge_run", vec![step("T", "start")], vec![local_broker_available("T")]);
    def.edge.insert(
        "primary".to_string(),
        Value::Mapping(vec![(Value::Str("status".to_string()), Value::Str("broken".to_string()))]),
    );
    assert_eq!(
        validate_scenario(&def, &no_facts()).err().unwrap(),
        ScenarioError::Edge(roomci::edge::EdgeError::InvalidConfig(
            "unsupported edge status broken; expected active, standby, or failed".to_string()
        ))
    );
}

#[test]
fn validation_hands_sensor_readings_to_the_caller() {
    let mut reading = step("T+3s", "start");
    reading.event = None;
    reading.sensor_reading = Some("living_room".to_string());
    let def = scenario("humid_ok", vec![reading], vec![local_broker_available("T+3s")]);
    let facts = ScenarioFacts { constraint_verdicts: Vec::new(), humidity_in_range: vec![true], assertions: Vec::new() };
    let prepared = validate_scenario(&def, &facts).ok().unwrap();
    assert_eq!(prepared.host_steps.len(), 1);
    assert!(matches!(&prepared.host_steps[0], roomci::validate::HostStep::SensorReading { step: 0, target } if target == "living_room"));
    assert!(matches!(prepared.events[0].kind, EventKind::Step(roomci::run::StepKind::Host(0))));
}

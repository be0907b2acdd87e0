use roomci::assertions::{ValidatedAssertionKind, ValidatedInlineAssertionKind};
use roomci::device::{ContactModel, DeviceModelError, LightingModel};
use roomci::edge::EdgeModel;
use roomci::modbus::ModbusModel;
use roomci::ops::OpsModel;
use roomci::report::RunResult;
use roomci::run::{finish_run, run_result, schedule, EventKind, EventOutcome, ScheduledEvent, StepKind};
use roomci::runtime::{RuntimeDevice, RuntimeState};
use roomci::scenario::{ContactId, Identifier};
use roomci::strmap::StrMap;

fn runtime() -> RuntimeState {
    RuntimeState::new(
        &Vec::<RuntimeDevice>::new(),
        true,
        EdgeModel::default(),
        None,
        None,
        None,
        ModbusModel::default(),
        LightingModel::default(),
        ContactModel::default(),
        OpsModel::from_config(&Vec::new()),
        vec!["stale".to_string()],
        0,
        None,
    )
}

fn step(at: i64, name: &str) -> ScheduledEvent {
    ScheduledEvent { at, order: 0, kind: EventKind::Step(StepKind::Event(name.to_string())) }
}

fn check(at: i64) -> ScheduledEvent {
    ScheduledEvent {
        at,
        order: 1,
        kind: EventKind::Assertion(ValidatedAssertionKind::Inline(
            ValidatedInlineAssertionKind::AccessControlDriftDetected,
        )),
    }
}

fn label(e: &ScheduledEvent) -> String {
    match &e.kind {
        EventKind::Step(StepKind::Event(name)) => format!("{}:{}", e.at, name),
        EventKind::Assertion(_) => format!("{}:assert", e.at),
        _ => format!("{}:other", e.at),
    }
}

#[test]
fn assertions_are_evaluated_in_timeline_order() {
    let events = vec![check(5_000), step(5_000, "b"), step(0, "a"), step(5_000, "c"), check(0)];
    let ordered: Vec<String> = schedule(events).iter().map(label).collect();
    assert_eq!(ordered, vec!["0:a", "0:assert", "5000:b", "5000:c", "5000:assert"]);
}

#[test]
fn run_applies_events_and_reports_results() {
    let mut rt = runtime();
    let mut assertions = Vec::new();
    for event in schedule(vec![step(1_000, "started"), check(2_000), ScheduledEvent {
        at: 3_000,
        order: 0,
        kind: EventKind::Step(StepKind::Host(7)),
    }]) {
        match rt.apply_event(&event, false).unwrap() {
            EventOutcome::Applied => {}
            EventOutcome::Assessed(a) => assertions.push(a),
            EventOutcome::Host(i) => assert_eq!(i, 7),
        }
    }
    assert_eq!(rt.timeline.len(), 1);
    assert_eq!(rt.timeline[0].at, "T+1s");
    assert_eq!(rt.timeline[0].event_type, "event");
    assert_eq!(rt.timeline[0].message, "started");
    assert_eq!(run_result(&assertions), RunResult::Passed);
    let report = finish_run(rt, assertions, "run-1", "demo");
    assert_eq!(report.result, RunResult::Passed);
    assert_eq!(report.generated_by, "roomci");
    assert_eq!(report.assertions.len(), 1);
}

#[test]
fn contact_step_on_unknown_contact_is_an_error() {
    let mut rt = runtime();
    let event = ScheduledEvent {
        at: 0,
        order: 0,
        kind: EventKind::Step(StepKind::Contact(
            ContactId(Identifier::parse("steps[].contact.id", "door").unwrap()),
            Identifier::parse("steps[].contact.state", "on").unwrap(),
        )),
    };
    match rt.apply_event(&event, false) {
        Err(DeviceModelError::UnknownContact(c)) => assert_eq!(c, "door"),
        _ => panic!("expected an unknown contact"),
    }
    assert!(rt.timeline.is_empty());
    let _ = StrMap::<bool>::new();
}

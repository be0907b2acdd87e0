use roomci::debug::{build_debug_report, debug_markdown};
use roomci::domain::{
    commissioning_check_count, expected_within, status_at, string_sequence, unexpected_access_users,
    DomainRuntimeConfig,
};
use roomci::report::{AssertionResult, RunReport, RunResult, TimelineEvent};
use roomci::runtime::RuntimeDevice;
use roomci::scenario::ScenarioError;
use roomci::strmap::StrMap;
use roomci::value::Value;

fn text(s: &str) -> Value {
    Value::Str(s.to_string())
}

fn state(key: &str, value: &str) -> StrMap<Value> {
    let mut m = StrMap::new();
    m.insert(key.to_string(), text(value));
    m
}

fn assertion(name: &str, passed: bool, message: &str) -> AssertionResult {
    AssertionResult {
        name: name.to_string(),
        assertion_type: "scene_consistency".to_string(),
        passed,
        message: message.to_string(),
        impact_level: if passed { None } else { Some("medium".to_string()) },
        impact_message: None,
        reference_id: Some("ref".to_string()),
    }
}

fn report(assertions: Vec<AssertionResult>) -> RunReport {
    let mut final_state = StrMap::new();
    final_state.insert("lamp".to_string(), state("power", "on"));
    final_state.insert("lock".to_string(), state("lock_state", "locked"));
    final_state.insert("new_device".to_string(), state("mode", "auto"));
    let result = if assertions.iter().all(|a| a.passed) { RunResult::Passed } else { RunResult::Failed };
    RunReport {
        schema_version: "roomci.report.v1".to_string(),
        run_id: "run-1".to_string(),
        generated_by: "roomci".to_string(),
        scenario_name: "dali_scene_partial_failure".to_string(),
        result,
        timeline: vec![
            TimelineEvent { at: "T".to_string(), event_type: "event".to_string(), target: None, message: "start".to_string() },
            TimelineEvent {
                at: "T+5s".to_string(),
                event_type: "scene_activated".to_string(),
                target: Some("welcome".to_string()),
                message: "scene welcome activated".to_string(),
            },
        ],
        assertions,
        final_state,
        retained_messages: StrMap::new(),
    }
}

fn devices() -> Vec<RuntimeDevice> {
    vec![
        RuntimeDevice { id: "lock".to_string(), state: state("lock_state", "locked"), protocol: None },
        RuntimeDevice { id: "lamp".to_string(), state: state("power", "off"), protocol: None },
        RuntimeDevice { id: "gone".to_string(), state: StrMap::new(), protocol: None },
    ]
}

#[test]
fn debug_view_lists_changed_devices_in_order() {
    let debug = build_debug_report(&devices(), &report(vec![assertion("scene_consistency:welcome", true, "ok")]));
    let targets: Vec<&str> = debug.state_diffs.iter().map(|d| d.target.as_str()).collect();
    assert_eq!(targets, vec!["gone", "lamp", "new_device"]);
    assert!(debug.state_diffs[0].after.is_none());
    assert!(debug.state_diffs[2].before.is_none());
    assert_eq!(debug.execution_order[1].sequence, 1);
    assert_eq!(debug.execution_order[1].target.as_deref(), Some("welcome"));
    assert!(debug.failure_causes.is_empty());
    assert_eq!(
        debug.suggested_checks,
        vec!["No failed assertions. Review state_diffs for expected device changes.".to_string()]
    );
}

#[test]
fn debug_view_names_failure_causes_and_renders_markdown() {
    let debug = build_debug_report(
        &devices(),
        &report(vec![assertion(
            "scene_consistency:welcome",
            false,
            "DALI-like scene consistency violation: D411S10 expected level 60, actual 0",
        )]),
    );
    assert_eq!(
        debug.failure_causes,
        vec![
            "scene_consistency:welcome (scene_consistency) failed: DALI-like scene consistency violation: D411S10 expected level 60, actual 0"
                .to_string()
        ]
    );
    assert_eq!(debug.suggested_checks.len(), 3);
    let md = debug_markdown(&debug);
    assert!(md.starts_with("# roomci Debug: dali_scene_partial_failure\n\n- Result: `Failed`\n- Events: `2`\n- Assertions: `1`\n\n"));
    assert!(md.contains("## Execution Order\n\n0. `T` `event` `-` - start\n1. `T+5s` `scene_activated` `welcome` - scene welcome activated\n"));
    assert!(md.contains("\n## State Diffs\n\n- `gone` changed\n- `lamp` changed\n- `new_device` changed\n"));
    assert!(md.contains("- `failed` `scene_consistency`: DALI-like"));
    assert!(md.ends_with("- Use --report-json with roomci run if you need the complete runtime report.\n"));
}

#[test]
fn debug_markdown_without_changes_or_failures() {
    let mut r = report(vec![]);
    r.final_state = StrMap::new();
    let debug = build_debug_report(&Vec::new(), &r);
    let md = debug_markdown(&debug);
    assert!(md.contains("No state changes from initial device state.\n"));
    assert!(md.contains("## Failure Causes\n\nNo failed assertions.\n"));
}

#[test]
fn access_drift_users_are_those_unknown_to_identity() {
    let mut inputs = StrMap::new();
    inputs.insert("identity_group".to_string(), Value::List(vec![text("alice"), Value::Int(3)]));
    inputs.insert(
        "access_system_group".to_string(),
        Value::List(vec![text("alice"), text("stale_contractor"), Value::Bool(true), text("bob")]),
    );
    assert_eq!(unexpected_access_users(&inputs), vec!["stale_contractor".to_string(), "bob".to_string()]);
    assert_eq!(string_sequence(inputs.get("identity_group")), vec!["alice".to_string()]);
    assert!(string_sequence(None).is_empty());
    assert!(string_sequence(Some(&text("x"))).is_empty());
}

#[test]
fn commissioning_checks_count_room_devices() {
    let mut c = StrMap::new();
    c.insert(
        "rooms".to_string(),
        Value::List(vec![
            Value::Mapping(vec![(text("devices"), Value::List(vec![text("a"), text("b")]))]),
            Value::Mapping(vec![(text("name"), text("lobby"))]),
            text("not a room"),
            Value::Mapping(vec![(text("devices"), Value::List(vec![text("c")]))]),
        ]),
    );
    c.insert("site".to_string(), text("hq"));
    assert_eq!(commissioning_check_count(&c), 3);
    assert_eq!(commissioning_check_count(&StrMap::new()), 0);
}

#[test]
fn failover_windows_and_backup_status_come_from_sections() {
    let mut wan = StrMap::new();
    wan.insert("failover".to_string(), Value::Mapping(vec![(text("expected_within"), text("30s"))]));
    wan.insert("backup".to_string(), Value::Mapping(vec![(text("status"), text("standby"))]));
    assert_eq!(expected_within(&wan), Ok(Some(30_000)));
    assert_eq!(status_at(&wan, "backup"), Some("standby".to_string()));
    let mut edge = StrMap::new();
    edge.insert("failover".to_string(), Value::Mapping(vec![(text("expected_within"), text("soon"))]));
    assert_eq!(expected_within(&edge), Err(ScenarioError::InvalidDuration("soon".to_string())));
    assert!(DomainRuntimeConfig::try_from_sections(&edge, &wan, &StrMap::new(), &StrMap::new()).is_err());
    let config =
        DomainRuntimeConfig::try_from_sections(&StrMap::new(), &wan, &StrMap::new(), &StrMap::new()).unwrap();
    assert_eq!(config.edge_expected_within, None);
    assert_eq!(config.wan_expected_within, Some(30_000));
    assert_eq!(config.wan_backup_status.as_deref(), Some("standby"));
    assert_eq!(config.commissioning_check_count, 0);
}

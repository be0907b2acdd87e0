use roomci::cli::{Contract, Outcome};
use roomci::json::json_quote;
use roomci::recovery::{
    after_cleanup, desired_payload, desired_topic, external_run_report, matches_report, probe_accepted,
    probe_connect_packet, proxy_confirmed, recovery_start, recovery_step, ObserverState,
    RecoveryAction, RecoveryEvent, RecoveryStage, RecoveryStep,
};
use roomci::report::{RunResult, TimelineEvent};
use roomci::value::Value;

fn text(s: &str) -> Value {
    Value::Str(s.to_string())
}

fn report(revision: i64, value: &str) -> Value {
    Value::Mapping(vec![(text("revision"), Value::Int(revision)), (text("value"), text(value))])
}

fn contract() -> Contract {
    Contract {
        scenario: "recovery".to_string(),
        broker_host: "localhost".to_string(),
        broker_port: 1883,
        proxy_host: "localhost".to_string(),
        proxy_api_port: 8474,
        proxy_port: 1884,
        proxy_name: "sut".to_string(),
        device_id: "device-1".to_string(),
        initial_value: "old".to_string(),
        latest_value: "new".to_string(),
        ready_timeout_ms: 1000,
        fault_timeout_ms: 2000,
        recovery_timeout_ms: 3000,
        stability_ms: 100,
    }
}

fn record_types(step: &RecoveryStep) -> Vec<String> {
    step.records.iter().map(|r| r.event_type.clone()).collect()
}

fn finish_of(step: &RecoveryStep) -> (&'static str, String) {
    match &step.action {
        RecoveryAction::Finish(outcome) => (outcome.verdict(), outcome.reason()),
        other => panic!("not finished: {:?}", other),
    }
}

#[test]
fn report_requires_exact_revision_and_value() {
    assert!(!matches_report(&report(1, "new"), 2, "new"));
    assert!(!matches_report(&report(2, "old"), 2, "new"));
    assert!(matches_report(&report(2, "new"), 2, "new"));
}

#[test]
fn report_without_revision_or_with_non_text_value_does_not_match() {
    assert!(!matches_report(&Value::Mapping(vec![(text("value"), text("new"))]), 2, "new"));
    assert!(!matches_report(
        &Value::Mapping(vec![(text("revision"), Value::Int(2)), (text("value"), Value::Int(7))]),
        2,
        "new"
    ));
    assert!(!matches_report(&Value::Null, 2, "new"));
    assert!(matches_report(
        &Value::Mapping(vec![(text("revision"), Value::UInt(2)), (text("value"), text("new"))]),
        2,
        "new"
    ));
}

#[test]
fn recovery_check_passes_when_latest_report_stays() {
    let c = contract();
    let start = recovery_start(&c);
    assert_eq!(start.next, RecoveryStage::AwaitObserver);
    assert!(matches!(start.action, RecoveryAction::AwaitSubscriptions { timeout_ms: 1000 }));

    let s = recovery_step(&c, RecoveryStage::AwaitObserver, RecoveryEvent::Satisfied);
    assert_eq!(s.next, RecoveryStage::PublishInitial);
    assert_eq!(record_types(&s), vec!["observer_ready"]);
    match &s.action {
        RecoveryAction::PublishDesired { revision, value, timeout_ms, clear_report } => {
            assert_eq!((*revision, value.as_str(), *timeout_ms, *clear_report), (1, "old", 1000, false));
        }
        other => panic!("unexpected {:?}", other),
    }

    let s = recovery_step(&c, RecoveryStage::PublishInitial, RecoveryEvent::Done);
    assert_eq!(s.next, RecoveryStage::AwaitInitialReport);
    assert!(s.records.is_empty());
    match &s.action {
        RecoveryAction::AwaitReport { revision, value, timeout_ms } => {
            assert_eq!((*revision, value.as_str(), *timeout_ms), (1, "old", 1000));
        }
        other => panic!("unexpected {:?}", other),
    }

    let s = recovery_step(&c, RecoveryStage::AwaitInitialReport, RecoveryEvent::Satisfied);
    assert_eq!(s.next, RecoveryStage::DisableProxy);
    assert_eq!(record_types(&s), vec!["initial_ready", "fault_requested"]);
    assert_eq!(s.records[1].target.as_deref(), Some("sut"));
    assert!(matches!(s.action, RecoveryAction::SetProxy { enabled: false, clear_status: true }));

    let s = recovery_step(&c, RecoveryStage::DisableProxy, RecoveryEvent::Done);
    assert_eq!(s.next, RecoveryStage::ConfirmBlocked);
    assert_eq!(record_types(&s), vec!["fault_applied"]);
    assert!(matches!(s.action, RecoveryAction::CheckBlocked));

    let s = recovery_step(&c, RecoveryStage::ConfirmBlocked, RecoveryEvent::Observed(true));
    assert_eq!(s.next, RecoveryStage::AwaitOffline);
    assert!(matches!(s.action, RecoveryAction::AwaitOffline { timeout_ms: 2000 }));

    let s = recovery_step(&c, RecoveryStage::AwaitOffline, RecoveryEvent::Satisfied);
    assert_eq!(s.next, RecoveryStage::PublishLatest);
    assert_eq!(record_types(&s), vec!["fault_affected_sut"]);
    match &s.action {
        RecoveryAction::PublishDesired { revision, value, timeout_ms, clear_report } => {
            assert_eq!((*revision, value.as_str(), *timeout_ms, *clear_report), (2, "new", 2000, true));
        }
        other => panic!("unexpected {:?}", other),
    }

    let s = recovery_step(&c, RecoveryStage::PublishLatest, RecoveryEvent::Done);
    assert_eq!(s.next, RecoveryStage::EnableProxy);
    assert!(matches!(s.action, RecoveryAction::SetProxy { enabled: true, clear_status: false }));

    let s = recovery_step(&c, RecoveryStage::EnableProxy, RecoveryEvent::Done);
    assert_eq!(s.next, RecoveryStage::ProbePath);
    assert!(matches!(s.action, RecoveryAction::ProbePath { recovery_timeout_ms: 3000 }));

    let s = recovery_step(&c, RecoveryStage::ProbePath, RecoveryEvent::Satisfied);
    assert_eq!(s.next, RecoveryStage::AwaitLatestReport);
    assert_eq!(record_types(&s), vec!["fault_released"]);
    assert!(matches!(s.action, RecoveryAction::AwaitLatestReport));

    let stale = RecoveryEvent::Report { value: report(1, "old"), text: "{\"revision\":1}".to_string() };
    let s = recovery_step(&c, RecoveryStage::AwaitLatestReport, stale);
    assert_eq!(s.next, RecoveryStage::AwaitLatestReport);
    assert_eq!(record_types(&s), vec!["stale_report"]);
    assert_eq!(s.records[0].message, "{\"revision\":1}");

    let latest = RecoveryEvent::Report { value: report(2, "new"), text: "latest".to_string() };
    let s = recovery_step(&c, RecoveryStage::AwaitLatestReport, latest);
    assert_eq!(s.next, RecoveryStage::HoldStable);
    assert_eq!(record_types(&s), vec!["latest_reached"]);
    assert!(matches!(s.action, RecoveryAction::HoldStable { stability_ms: 100 }));

    let again = RecoveryEvent::Report { value: report(2, "new"), text: "again".to_string() };
    let s = recovery_step(&c, RecoveryStage::HoldStable, again);
    assert_eq!(s.next, RecoveryStage::HoldStable);
    assert!(s.records.is_empty());

    let s = recovery_step(&c, RecoveryStage::HoldStable, RecoveryEvent::Expired);
    assert_eq!(s.next, RecoveryStage::Finished);
    assert_eq!(finish_of(&s), ("passed", "latest_report_stable".to_string()));
}

#[test]
fn recovery_check_fails_on_wrong_value_rollback_or_missing_report() {
    let c = contract();
    let wrong = RecoveryEvent::Report { value: report(2, "old"), text: String::new() };
    let s = recovery_step(&c, RecoveryStage::AwaitLatestReport, wrong);
    assert_eq!(finish_of(&s), ("failed", "wrong_latest_value".to_string()));

    let rollback = RecoveryEvent::Report { value: report(1, "old"), text: String::new() };
    let s = recovery_step(&c, RecoveryStage::HoldStable, rollback);
    assert_eq!(finish_of(&s), ("failed", "rollback_observed".to_string()));

    let s = recovery_step(&c, RecoveryStage::AwaitLatestReport, RecoveryEvent::Expired);
    assert_eq!(finish_of(&s), ("failed", "missing_latest_report".to_string()));
}

#[test]
fn recovery_check_is_inconclusive_when_the_fault_cannot_be_driven() {
    let c = contract();
    let s = recovery_step(&c, RecoveryStage::AwaitObserver, RecoveryEvent::Expired);
    assert_eq!(finish_of(&s), ("inconclusive", "observer_not_ready".to_string()));
    let s = recovery_step(&c, RecoveryStage::AwaitInitialReport, RecoveryEvent::Expired);
    assert_eq!(finish_of(&s), ("inconclusive", "initial_report_missing".to_string()));
    let s = recovery_step(&c, RecoveryStage::DisableProxy, RecoveryEvent::Failed("HTTP 500".to_string()));
    assert_eq!(finish_of(&s), ("inconclusive", "fault_not_applied: HTTP 500".to_string()));
    let s = recovery_step(&c, RecoveryStage::ConfirmBlocked, RecoveryEvent::Observed(false));
    assert_eq!(
        finish_of(&s),
        ("inconclusive", "fault_not_applied: proxy_still_accepts_connections".to_string())
    );
    let s = recovery_step(&c, RecoveryStage::AwaitOffline, RecoveryEvent::Expired);
    assert_eq!(
        finish_of(&s),
        ("inconclusive", "fault_not_affected: sut_disconnect_not_observed".to_string())
    );
    let s = recovery_step(&c, RecoveryStage::EnableProxy, RecoveryEvent::Failed("refused".to_string()));
    assert_eq!(finish_of(&s), ("inconclusive", "fault_release_failed: refused".to_string()));
    let s = recovery_step(&c, RecoveryStage::ProbePath, RecoveryEvent::Expired);
    assert_eq!(
        finish_of(&s),
        ("inconclusive", "fault_release_failed: MQTT path unavailable".to_string())
    );
    let s = recovery_step(&c, RecoveryStage::PublishLatest, RecoveryEvent::Failed("no PUBACK".to_string()));
    assert_eq!(finish_of(&s), ("inconclusive", "no PUBACK".to_string()));
}

#[test]
fn cleanup_failure_makes_the_outcome_inconclusive() {
    let (outcome, entry) = after_cleanup(Outcome::Passed, Ok(()));
    assert_eq!(outcome.verdict(), "passed");
    assert_eq!(entry.event_type, "proxy_cleanup");
    assert_eq!(entry.message, "proxy enabled");

    let (outcome, entry) = after_cleanup(Outcome::Failed("rollback_observed"), Err("timeout".to_string()));
    assert_eq!(outcome.verdict(), "inconclusive");
    assert_eq!(outcome.reason(), "rollback_observed; proxy_cleanup_failed: timeout");
    assert_eq!(entry.event_type, "proxy_cleanup_failed");
    assert_eq!(entry.message, "timeout");
}

#[test]
fn observer_takes_only_live_reports_of_its_run() {
    let mut o = ObserverState::new("ci-1", "device-1");
    assert_eq!(o.reported_topic, "roomci/ci-1/device-1/reported");
    assert_eq!(o.status_topic, "roomci/ci-1/device-1/status");

    let ours = Value::Mapping(vec![
        (text("run_id"), text("ci-1")),
        (text("device_id"), text("device-1")),
        (text("revision"), Value::Int(1)),
        (text("value"), text("old")),
    ]);
    let r = o.observe_publish("roomci/ci-1/device-1/reported", true, Some(ours.deep_clone()), "t".to_string());
    assert_eq!(r.unwrap().event_type, "ignored_retained_report");
    assert!(o.last_report.is_none());

    let r = o.observe_publish("roomci/ci-1/device-1/reported", false, Some(ours.deep_clone()), "live".to_string());
    let r = r.unwrap();
    assert_eq!((r.event_type.as_str(), r.message.as_str()), ("sut_reported", "live"));
    assert_eq!(o.last_report, Some(ours.deep_clone()));
    assert_eq!(o.last_seen, Some(ours.deep_clone()));

    let other = Value::Mapping(vec![(text("run_id"), text("ci-2")), (text("device_id"), text("device-1"))]);
    let r = o.observe_publish("roomci/ci-1/device-1/reported", false, Some(other), "x".to_string());
    assert_eq!(r.unwrap().event_type, "ignored_report");
    assert_eq!(o.last_report, Some(ours));

    let status = Value::Mapping(vec![
        (text("run_id"), text("ci-1")),
        (text("device_id"), text("device-1")),
        (text("status"), text("offline")),
    ]);
    let r = o.observe_publish("roomci/ci-1/device-1/status", false, Some(status), "s".to_string());
    let r = r.unwrap();
    assert_eq!((r.event_type.as_str(), r.message.as_str()), ("sut_status", "offline"));
    assert_eq!(o.status.as_deref(), Some("offline"));

    assert!(o.observe_publish("elsewhere", false, None, String::new()).is_none());
    assert_eq!(o.pubacks, 0);
}

#[test]
fn external_report_appends_the_verdict_and_records_expectations() {
    let c = contract();
    let timeline = vec![TimelineEvent {
        at: "2024-01-01T00:00:00Z".to_string(),
        event_type: "observer_ready".to_string(),
        target: None,
        message: "ready".to_string(),
    }];
    let r = external_run_report(
        &c,
        "ci-1",
        "roomci 0.1.1".to_string(),
        timeline,
        "2024-01-01T00:00:05Z".to_string(),
        true,
        Some(report(2, "new")),
        &Outcome::Passed,
    );
    assert_eq!(r.result, RunResult::Passed);
    assert_eq!(r.scenario_name, "recovery");
    assert_eq!(r.timeline.len(), 2);
    assert_eq!(r.timeline[1].event_type, "verdict");
    assert_eq!(r.timeline[1].message, "latest_report_stable");
    assert_eq!(r.assertions.len(), 1);
    assert!(r.assertions[0].passed);
    assert_eq!(r.assertions[0].reference_id.as_deref(), Some("external_mqtt_recovery"));
    let state = r.final_state.get("device-1").unwrap();
    assert_eq!(state.get("verdict"), Some(&text("passed")));
    assert_eq!(state.get("expected_latest"), Some(&report(2, "new")));
    assert_eq!(state.get("expected_initial"), Some(&report(1, "old")));
    assert_eq!(state.get("observed_report"), Some(&report(2, "new")));

    let r = external_run_report(
        &c,
        "ci-1",
        "roomci".to_string(),
        Vec::new(),
        "t".to_string(),
        false,
        None,
        &Outcome::Inconclusive("observer_not_ready".to_string()),
    );
    assert_eq!(r.result, RunResult::Failed);
    let state = r.final_state.get("device-1").unwrap();
    assert_eq!(state.len(), 1);
    assert_eq!(state.get("verdict"), Some(&text("inconclusive")));
}

#[test]
fn json_quote_escapes_like_a_json_writer() {
    assert_eq!(json_quote("plain"), "\"plain\"");
    assert_eq!(json_quote("a\"b\\c"), "\"a\\\"b\\\\c\"");
    assert_eq!(json_quote("line\nnext\ttab\r"), "\"line\\nnext\\ttab\\r\"");
    assert_eq!(json_quote("\u{1}\u{8}\u{c}"), "\"\\u0001\\b\\f\"");
    assert_eq!(json_quote("ä/€"), "\"ä/€\"");
    assert_eq!(json_quote(""), "\"\"");
}

#[test]
fn desired_payload_is_compact_json_with_sorted_keys() {
    assert_eq!(desired_topic("ci-1", "device-1"), "roomci/ci-1/device-1/desired");
    assert_eq!(
        desired_payload("ci-1", "device-1", 1, "old"),
        "{\"device_id\":\"device-1\",\"revision\":1,\"run_id\":\"ci-1\",\"value\":\"old\"}"
    );
    assert_eq!(
        desired_payload("r", "d", 18446744073709551615, "say \"hi\""),
        "{\"device_id\":\"d\",\"revision\":18446744073709551615,\"run_id\":\"r\",\"value\":\"say \\\"hi\\\"\"}"
    );
}

fn proxy_answer(enabled: bool, listen: &str, upstream: &str) -> Value {
    Value::Mapping(vec![
        (text("name"), text("sut")),
        (text("enabled"), Value::Bool(enabled)),
        (text("listen"), text(listen)),
        (text("upstream"), text(upstream)),
    ])
}

#[test]
fn fault_apply_and_release_require_confirmed_proxy_state() {
    let c = contract();
    for requested in [false, true] {
        let answer = proxy_answer(!requested, "0.0.0.0:1884", "localhost:1883");
        assert!(!proxy_confirmed(&c, &answer, requested));
        let answer = proxy_answer(requested, "0.0.0.0:1884", "localhost:1883");
        assert!(proxy_confirmed(&c, &answer, requested));
    }
    assert!(!proxy_confirmed(&c, &proxy_answer(true, "0.0.0.0:18840", "localhost:1883"), true));
    assert!(!proxy_confirmed(&c, &proxy_answer(true, "0.0.0.0:1884", "broker:1883"), true));
    assert!(!proxy_confirmed(&c, &Value::Null, true));
}

#[test]
fn probe_packet_is_an_mqtt_311_connect() {
    let packet = probe_connect_packet("ci-1");
    let client = b"roomci-probe-ci-1";
    let mut expected = vec![0x10, (12 + client.len()) as u8, 0, 4, b'M', b'Q', b'T', b'T', 4, 2, 0, 5, 0, client.len() as u8];
    expected.extend_from_slice(client);
    assert_eq!(packet, expected);
    assert!(probe_accepted(&[0x20, 0x02, 0x00, 0x00]));
    assert!(!probe_accepted(&[0x20, 0x02, 0x00, 0x05]));
    assert!(!probe_accepted(&[0x20, 0x02]));
}

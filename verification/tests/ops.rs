use roomci::ops::{OpsError, OpsEvent, OpsModel};
use roomci::strmap::StrMap;
use roomci::value::Value;

fn text(s: &str) -> Value {
    Value::Str(s.to_string())
}

fn sauna_alerts() -> Vec<StrMap<Value>> {
    let mut alert = StrMap::new();
    alert.insert("id".to_string(), text("sauna_emergency_button"));
    alert.insert("source".to_string(), text("contact.sauna_emergency_button"));
    alert.insert(
        "notify".to_string(),
        Value::Mapping(vec![
            (text("slack"), Value::Bool(true)),
            (text("phone"), Value::Bool(true)),
        ]),
    );
    alert.insert(
        "runbook_url".to_string(),
        text("https://example.com/runbooks/sauna-emergency"),
    );
    vec![alert]
}

#[test]
fn critical_contact_triggers_notifications_and_runbook() {
    let mut ops = OpsModel::from_config(&sauna_alerts());

    let events = ops.apply_contact_change("sauna_emergency_button", "on");

    assert!(events.iter().any(|event| matches!(event, OpsEvent::SlackNotificationSent { .. })));
    assert!(events.iter().any(|event| matches!(event, OpsEvent::PhoneCallTriggered { .. })));
    assert!(events.iter().any(|event| matches!(
        event,
        OpsEvent::RunbookUrlIncluded { runbook_url, .. }
            if runbook_url == "https://example.com/runbooks/sauna-emergency"
    )));
}

#[test]
fn acknowledge_updates_ticket_status() {
    let mut ops = OpsModel::from_config(&sauna_alerts());
    ops.apply_contact_change("sauna_emergency_button", "on");

    let events = ops.acknowledge(Some("ops_member_01".to_string()));

    assert!(events.iter().any(|event| matches!(
        event,
        OpsEvent::TicketAcknowledged { assignee, .. }
            if assignee.as_deref() == Some("ops_member_01")
    )));
    let mut assertion = StrMap::new();
    assertion.insert("ticket_status".to_string(), text("acknowledged"));
    assert!(ops.evaluate_assertion(&assertion).unwrap().passed);
}

#[test]
fn validates_alert_contact_sources() {
    let ops = OpsModel::from_config(&sauna_alerts());

    assert!(ops.validate_sources(|contact| contact == "sauna_emergency_button").is_ok());
    assert_eq!(
        ops.validate_sources(|_| false),
        Err(OpsError::UnknownAlertSource("contact.sauna_emergency_button".to_string()))
    );
}

#[test]
fn contact_turning_off_raises_nothing() {
    let mut ops = OpsModel::from_config(&sauna_alerts());
    assert!(ops.apply_contact_change("sauna_emergency_button", "off").is_empty());
    let mut assertion = StrMap::new();
    assertion.insert("slack_notification_sent".to_string(), Value::Bool(true));
    let outcome = ops.evaluate_assertion(&assertion).unwrap();
    assert!(!outcome.passed);
    assert_eq!(outcome.failures, vec!["Slack notification was not sent".to_string()]);
}

#[test]
fn fired_alert_events_come_in_a_fixed_order() {
    let mut ops = OpsModel::from_config(&sauna_alerts());
    let events = ops.apply_contact_change("sauna_emergency_button", "on");
    assert_eq!(
        events,
        vec![
            OpsEvent::TicketOpened {
                alert_id: "sauna_emergency_button".to_string(),
                status: "open".to_string(),
            },
            OpsEvent::SlackNotificationSent {
                alert_id: "sauna_emergency_button".to_string(),
                runbook_url: Some("https://example.com/runbooks/sauna-emergency".to_string()),
            },
            OpsEvent::PhoneCallTriggered { alert_id: "sauna_emergency_button".to_string() },
            OpsEvent::RunbookUrlIncluded {
                alert_id: "sauna_emergency_button".to_string(),
                runbook_url: "https://example.com/runbooks/sauna-emergency".to_string(),
            },
        ]
    );
}

#[test]
fn unknown_ops_assertion_key_is_an_error() {
    let ops = OpsModel::from_config(&sauna_alerts());
    let mut assertion = StrMap::new();
    assertion.insert("pager_sent".to_string(), Value::Bool(true));
    let error = ops.evaluate_assertion(&assertion).unwrap_err();
    assert_eq!(error, OpsError::UnsupportedAssertion("pager_sent".to_string()));
    assert_eq!(error.message(), "unsupported ops assertion pager_sent");
}

#[test]
fn alert_entries_without_source_are_skipped() {
    let mut incomplete = StrMap::new();
    incomplete.insert("id".to_string(), text("orphan"));
    let mut ops = OpsModel::from_config(&vec![incomplete]);
    assert!(ops.validate_sources(|_| false).is_ok());
    assert!(ops.apply_contact_change("orphan", "on").is_empty());
}

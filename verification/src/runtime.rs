//! The scenario runtime state and the effects of scheduled steps on it:
//! faults, commands and scene activations, intercom events and MQTT
//! publishes, each recorded on the timeline; and the target-condition
//! assertions over that state. Comfort readings, which are floating-point
//! measurements, are kept beside this state by the caller.

use vstd::prelude::*;

use crate::device::{ContactModel, DeviceModelError, LightingModel, LightingView};
use crate::device::{levels_after_scene, scene_events, LightingEvent, LightingEventView};
use crate::edge::{EdgeStatus, active_edge, after_power_loss, power_loss_fails_over, EdgeError, EdgeModel, EdgeModelView};
use crate::json::{json_or_null, yaml_map_to_json};
use crate::mqtt::{
    after_publish, broker_online, command_topic_device_id, delivery_count, device_id_from_command_topic,
    payload_view, state_topic_of, MqttError,
};
use crate::scenario::{CommandTarget, Identifier, MqttTopic, ScenarioError, ValidatedFaultKind};
use crate::text::{i64_to_string, signed_decimal, str_eq};
use crate::modbus::ModbusModel;
use crate::mqtt::{BrokerModel, BrokerView};
use crate::ops::{alerts_fired, opt_chars, OpsEvent, OpsEventView, OpsModel, OpsView};
use crate::report::{AssertionResult, TimelineEvent};
use crate::strmap::{clone_values, nested_value_views, value_views, StrMap};
use crate::text::{concat2, decimal, push_str, string_texts, to_owned, u64_to_string};
use crate::value::{Value, ValueView};

verus! {

/// A timeline event taken by its text.
pub struct EventView {
    pub at: Seq<char>,
    pub event_type: Seq<char>,
    pub target: Option<Seq<char>>,
    pub message: Seq<char>,
}

pub open spec fn event_view(e: TimelineEvent) -> EventView {
    EventView { at: e.at@, event_type: e.event_type@, target: opt_chars(e.target), message: e.message@ }
}

pub open spec fn timeline_view(t: Seq<TimelineEvent>) -> Seq<EventView> {
    t.map_values(|e: TimelineEvent| event_view(e))
}

/// The runtime state of a scenario run, apart from comfort readings.
/// Times are milliseconds from the scenario start.
pub struct RuntimeState {
    pub states: StrMap<StrMap<Value>>,
    pub protocols: StrMap<Option<String>>,
    pub broker: BrokerModel,
    pub edge: EdgeModel,
    pub edge_primary_failed_at: Option<i64>,
    pub edge_failover_at: Option<i64>,
    pub edge_expected_within: Option<i64>,
    pub wan_primary_failed_at: Option<i64>,
    pub wan_failover_at: Option<i64>,
    pub wan_expected_within: Option<i64>,
    pub wan_backup_status: Option<String>,
    pub duplicate_delivery_by_topic: StrMap<u32>,
    pub modbus: ModbusModel,
    pub lighting: LightingModel,
    pub contacts: ContactModel,
    pub ops: OpsModel,
    pub user_override_count: u32,
    /// Users the access system grants that the identity system does not know.
    pub unexpected_users: Vec<String>,
    /// How many commissioning checks the configuration generates, and for
    /// which site.
    pub commissioning_check_count: usize,
    pub commissioning_site: Option<String>,
    pub timeline: Vec<TimelineEvent>,
}

pub struct RuntimeView {
    pub states: Map<Seq<char>, Map<Seq<char>, ValueView>>,
    pub protocols: Map<Seq<char>, Option<String>>,
    pub broker: BrokerView,
    pub edge: EdgeModelView,
    pub edge_primary_failed_at: Option<i64>,
    pub edge_failover_at: Option<i64>,
    pub edge_expected_within: Option<i64>,
    pub wan_primary_failed_at: Option<i64>,
    pub wan_failover_at: Option<i64>,
    pub wan_expected_within: Option<i64>,
    pub wan_backup_status: Option<Seq<char>>,
    pub duplicates: Map<Seq<char>, u32>,
    pub modbus: Map<Seq<char>, Map<u32, crate::modbus::RegisterView>>,
    pub lighting: LightingView,
    pub contacts: Map<Seq<char>, Seq<char>>,
    pub ops: OpsView,
    pub user_override_count: u32,
    pub unexpected_users: Seq<Seq<char>>,
    pub commissioning_check_count: usize,
    pub commissioning_site: Option<Seq<char>>,
    pub timeline: Seq<EventView>,
}

impl View for RuntimeState {
    type V = RuntimeView;

    open spec fn view(&self) -> RuntimeView {
        RuntimeView {
            states: nested_value_views(self.states@),
            protocols: self.protocols@,
            broker: self.broker@,
            edge: self.edge@,
            edge_primary_failed_at: self.edge_primary_failed_at,
            edge_failover_at: self.edge_failover_at,
            edge_expected_within: self.edge_expected_within,
            wan_primary_failed_at: self.wan_primary_failed_at,
            wan_failover_at: self.wan_failover_at,
            wan_expected_within: self.wan_expected_within,
            wan_backup_status: opt_chars(self.wan_backup_status),
            duplicates: self.duplicate_delivery_by_topic@,
            modbus: self.modbus@,
            lighting: self.lighting@,
            contacts: self.contacts@,
            ops: self.ops@,
            user_override_count: self.user_override_count,
            unexpected_users: string_texts(self.unexpected_users@),
            commissioning_check_count: self.commissioning_check_count,
            commissioning_site: opt_chars(self.commissioning_site),
            timeline: timeline_view(self.timeline@),
        }
    }
}

/// How a time offset reads on the timeline: `T` at the start, else `T`,
/// its sign and whole minutes (`m`) when it is a whole number of minutes
/// of at least one, whole seconds (`s`) otherwise.
pub open spec fn duration_text(ms: int) -> Seq<char> {
    if ms == 0 {
        "T"@
    } else {
        let sign = if ms >= 0 {
            "+"@
        } else {
            "-"@
        };
        let secs = (if ms >= 0 {
            ms
        } else {
            -ms
        }) / 1000;
        if secs % 60 == 0 && secs >= 60 {
            "T"@ + sign + decimal((secs / 60) as nat) + "m"@
        } else {
            "T"@ + sign + decimal(secs as nat) + "s"@
        }
    }
}

/// Formats a time offset for the timeline.
pub fn format_duration(ms: i64) -> (s: String)
    requires
        ms > i64::MIN,
    ensures
        s@ == duration_text(ms as int),
{
    if ms == 0 {
        return to_owned("T");
    }
    let sign = if ms >= 0 {
        "+"
    } else {
        "-"
    };
    let magnitude: u64 = if ms >= 0 {
        ms as u64
    } else {
        (-ms) as u64
    };
    let secs = magnitude / 1000;
    let mut s = concat2("T", sign);
    if secs % 60 == 0 && secs >= 60 {
        let n = u64_to_string(secs / 60);
        push_str(&mut s, n.as_str());
        push_str(&mut s, "m");
    } else {
        let n = u64_to_string(secs);
        push_str(&mut s, n.as_str());
        push_str(&mut s, "s");
    }
    s
}

pub open spec fn entry(at: int, event_type: Seq<char>, target: Option<Seq<char>>, message: Seq<char>) -> EventView {
    EventView { at: duration_text(at), event_type, target, message }
}

/// The timeline entry an ops event becomes.
pub open spec fn ops_entry(at: int, e: OpsEventView) -> EventView {
    match e {
        OpsEventView::SlackNotificationSent { alert_id, runbook_url } => entry(
            at,
            "ops_slack_notification_sent"@,
            Some(alert_id),
            match runbook_url {
                Some(u) => "Slack notification sent with runbook "@ + u,
                None => "Slack notification sent"@,
            },
        ),
        OpsEventView::PhoneCallTriggered { alert_id } => entry(
            at,
            "ops_phone_call_triggered"@,
            Some(alert_id),
            "Phone escalation triggered"@,
        ),
        OpsEventView::TicketOpened { alert_id, status } => entry(
            at,
            "ops_ticket_opened"@,
            Some(alert_id),
            "Ops ticket opened with status "@ + status,
        ),
        OpsEventView::TicketAcknowledged { alert_id, assignee } => entry(
            at,
            "ops_ticket_acknowledged"@,
            Some(alert_id),
            match assignee {
                Some(a) => "Ops ticket acknowledged by "@ + a,
                None => "Ops ticket acknowledged"@,
            },
        ),
        OpsEventView::RunbookUrlIncluded { alert_id, runbook_url } => entry(
            at,
            "ops_runbook_url_included"@,
            Some(alert_id),
            "Runbook URL included: "@ + runbook_url,
        ),
    }
}

/// Appends an event to a timeline.
pub fn push_event(
    timeline: &mut Vec<TimelineEvent>,
    at: i64,
    event_type: &str,
    target: Option<String>,
    message: String,
)
    requires
        at > i64::MIN,
    ensures
        timeline_view(final(timeline)@) == timeline_view(old(timeline)@).push(
            entry(at as int, event_type@, opt_chars(target), message@),
        ),
{
    let ghost before = timeline_view(timeline@);
    let ghost tv = opt_chars(target);
    let ghost mv = message@;
    timeline.push(
        TimelineEvent { at: format_duration(at), event_type: to_owned(event_type), target, message },
    );
    assert(timeline_view(timeline@) =~= before.push(entry(at as int, event_type@, tv, mv)));
}

/// Appends the entry of an ops event.
pub fn push_ops_event(timeline: &mut Vec<TimelineEvent>, at: i64, event: OpsEvent)
    requires
        at > i64::MIN,
    ensures
        timeline_view(final(timeline)@) == timeline_view(old(timeline)@).push(ops_entry(at as int, event@)),
{
    match event {
        OpsEvent::SlackNotificationSent { alert_id, runbook_url } => {
            let message = match runbook_url {
                Some(url) => concat2("Slack notification sent with runbook ", url.as_str()),
                None => to_owned("Slack notification sent"),
            };
            push_event(timeline, at, "ops_slack_notification_sent", Some(alert_id), message);
        },
        OpsEvent::PhoneCallTriggered { alert_id } => {
            push_event(
                timeline,
                at,
                "ops_phone_call_triggered",
                Some(alert_id),
                to_owned("Phone escalation triggered"),
            );
        },
        OpsEvent::TicketOpened { alert_id, status } => {
            let message = concat2("Ops ticket opened with status ", status.as_str());
            push_event(timeline, at, "ops_ticket_opened", Some(alert_id), message);
        },
        OpsEvent::TicketAcknowledged { alert_id, assignee } => {
            let message = match assignee {
                Some(a) => concat2("Ops ticket acknowledged by ", a.as_str()),
                None => to_owned("Ops ticket acknowledged"),
            };
            push_event(timeline, at, "ops_ticket_acknowledged", Some(alert_id), message);
        },
        OpsEvent::RunbookUrlIncluded { alert_id, runbook_url } => {
            let message = concat2("Runbook URL included: ", runbook_url.as_str());
            push_event(timeline, at, "ops_runbook_url_included", Some(alert_id), message);
        },
    }
}

/// The ops state after a Slack notification for `alert_id` is recorded.
pub open spec fn slack_sent(o: OpsView, alert_id: Seq<char>) -> OpsView {
    OpsView { slack: o.slack.insert(alert_id, None), ..o }
}

pub open spec fn slack_entry(at: int, alert_id: Seq<char>) -> EventView {
    ops_entry(at, OpsEventView::SlackNotificationSent { alert_id, runbook_url: None })
}

/// The state a fault profile records for its target.
pub open spec fn profile_state(event_type: Seq<char>) -> Map<Seq<char>, ValueView> {
    Map::<Seq<char>, ValueView>::empty().insert("status"@, ValueView::Str("faulted"@)).insert(
        "fault_profile"@,
        ValueView::Str(event_type),
    ).insert("bms_evidence"@, ValueView::Str("recorded"@))
}

/// The runtime after a fault profile is recorded: the target's state, the
/// profile event, and a Slack notification named after the event type.
pub open spec fn profile_recorded(
    v: RuntimeView,
    at: int,
    target: Seq<char>,
    event_type: Seq<char>,
    message: Seq<char>,
) -> RuntimeView {
    RuntimeView {
        states: v.states.insert(target, profile_state(event_type)),
        ops: slack_sent(v.ops, event_type),
        timeline: v.timeline.push(entry(at, event_type, Some(target), message)).push(
            slack_entry(at, event_type),
        ),
        ..v
    }
}

impl RuntimeState {
    /// Records a fault profile for `target`.
    pub fn record_fault_profile(&mut self, at: i64, target: &str, event_type: &str, message: String)
        requires
            at > i64::MIN,
        ensures
            final(self)@ == profile_recorded(old(self)@, at as int, target@, event_type@, message@),
    {
        let ghost before = self@;
        let mut state: StrMap<Value> = StrMap::new();
        state.insert(to_owned("status"), Value::Str(to_owned("faulted")));
        state.insert(to_owned("fault_profile"), Value::Str(to_owned(event_type)));
        state.insert(to_owned("bms_evidence"), Value::Str(to_owned("recorded")));
        assert(crate::strmap::value_views(state@) =~= profile_state(event_type@));
        self.states.insert(to_owned(target), state);
        assert(nested_value_views(self.states@) =~= before.states.insert(target@, profile_state(event_type@)));
        push_event(&mut self.timeline, at, event_type, Some(to_owned(target)), message);
        let event = self.ops.record_slack_notification(event_type, None);
        push_ops_event(&mut self.timeline, at, event);
        assert(self@.ops == slack_sent(before.ops, event_type@));
    }
}

/// The runtime with the `fault_activated` event of a fault appended.
pub open spec fn activated(w: RuntimeView, at: int, f: ValidatedFaultKind) -> RuntimeView {
    RuntimeView {
        timeline: w.timeline.push(
            entry(
                at,
                "fault_activated"@,
                Some(f.spec_target()),
                f.spec_fault_type() + " fault activated"@,
            ),
        ),
        ..w
    }
}

/// The runtime after a fault is applied at `at`.
pub open spec fn fault_effect(v: RuntimeView, at: int, f: ValidatedFaultKind) -> RuntimeView {
    let target = f.spec_target();
    match f {
        ValidatedFaultKind::BrokerOffline { target: b } => activated(
            RuntimeView { broker: BrokerView { online: v.broker.online.insert(b.0@, false), ..v.broker }, ..v },
            at,
            f,
        ),
        ValidatedFaultKind::EdgePrimaryPowerLost => {
            let w = RuntimeView {
                edge_primary_failed_at: Some(at as i64),
                edge: after_power_loss(v.edge),
                ..v
            };
            activated(
                if power_loss_fails_over(v.edge) {
                    RuntimeView {
                        edge_failover_at: Some(at as i64),
                        timeline: w.timeline.push(
                            entry(
                                at,
                                "edge_failover"@,
                                Some(v.edge.secondary.unwrap().id),
                                "edge failover completed from "@ + v.edge.primary.id,
                            ),
                        ),
                        ..w
                    }
                } else {
                    w
                },
                at,
                f,
            )
        },
        ValidatedFaultKind::WanPrimaryDown => activated(
            RuntimeView {
                wan_primary_failed_at: Some(at as i64),
                wan_backup_status: Some("active"@),
                wan_failover_at: Some(at as i64),
                ops: slack_sent(v.ops, "wan_failover"@),
                timeline: v.timeline.push(
                    entry(
                        at,
                        "wan_failover"@,
                        Some("wan.backup"@),
                        "backup WAN activated after primary failure"@,
                    ),
                ).push(slack_entry(at, "wan_failover"@)),
                ..v
            },
            at,
            f,
        ),
        ValidatedFaultKind::MqttDuplicateDelivery { topic, count } => activated(
            match topic {
                Some(t) => RuntimeView {
                    duplicates: v.duplicates.insert(
                        t@,
                        match count {
                            Some(c) => if c < 2 {
                                2u32
                            } else {
                                c
                            },
                            None => 2u32,
                        },
                    ),
                    ..v
                },
                None => v,
            },
            at,
            f,
        ),
        ValidatedFaultKind::NetworkSegmentIsolated { segment } => activated(
            profile_recorded(
                v,
                at,
                target,
                "network_segment_isolated"@,
                "network segment "@ + segment@ + " isolated"@,
            ),
            at,
            f,
        ),
        ValidatedFaultKind::FirewallPolicyDrift { policy } => activated(
            profile_recorded(
                v,
                at,
                target,
                "firewall_policy_drift_detected"@,
                "firewall policy "@ + policy@ + " drift detected"@,
            ),
            at,
            f,
        ),
        ValidatedFaultKind::MqttLocalUnreachable => activated(
            profile_recorded(
                v,
                at,
                "mqtt.local"@,
                "local_broker_unreachable"@,
                "local MQTT broker unreachable"@,
            ),
            at,
            f,
        ),
        ValidatedFaultKind::ControlPanelUpsBatteryDegraded => activated(
            profile_recorded(
                v,
                at,
                "control_panel.ups"@,
                "control_panel_ups_degraded"@,
                "control-panel UPS battery degraded"@,
            ),
            at,
            f,
        ),
        ValidatedFaultKind::ControlPanelCircuitProtectorTripped { .. } => activated(
            profile_recorded(
                v,
                at,
                target,
                "control_panel_circuit_protector_tripped"@,
                target + " tripped"@,
            ),
            at,
            f,
        ),
        ValidatedFaultKind::ControlPanelPsuDegraded { .. } => activated(
            profile_recorded(
                v,
                at,
                target,
                "control_panel_redundant_psu_degraded"@,
                target + " degraded"@,
            ),
            at,
            f,
        ),
        ValidatedFaultKind::EdgeSecondaryTakeoverFailed => activated(
            profile_recorded(
                v,
                at,
                "edge.secondary"@,
                "edge_redundancy_takeover_failed"@,
                "secondary edge takeover failed"@,
            ),
            at,
            f,
        ),
        ValidatedFaultKind::DaliFixtureCommandDrop { fixture } => if v.lighting.levels.contains_key(
            fixture.0@,
        ) {
            activated(
                RuntimeView {
                    lighting: LightingView { drops: v.lighting.drops.insert(fixture.0@), ..v.lighting },
                    ..v
                },
                at,
                f,
            )
        } else {
            RuntimeView {
                timeline: v.timeline.push(
                    entry(at, "fault_rejected"@, Some(target), "unknown DALI fixture "@ + fixture.0@),
                ),
                ..v
            }
        },
    }
}

impl RuntimeState {
    /// Applies a fault at `at`: it changes the model it targets, records
    /// what follows from it, and (unless it is rejected) ends with a
    /// `fault_activated` event.
    pub fn apply_fault(&mut self, at: i64, fault: &ValidatedFaultKind)
        requires
            at > i64::MIN,
        ensures
            final(self)@ == fault_effect(old(self)@, at as int, *fault),
    {
        let ghost before = self@;
        match fault {
            ValidatedFaultKind::BrokerOffline { target } => {
                self.broker.set_online(target.as_str(), false);
            },
            ValidatedFaultKind::EdgePrimaryPowerLost => {
                self.edge_primary_failed_at = Some(at);
                match self.edge.apply_power_lost_to_primary() {
                    Some(outcome) => {
                        self.edge_failover_at = Some(at);
                        let message = concat2("edge failover completed from ", outcome.from.as_str());
                        push_event(&mut self.timeline, at, "edge_failover", Some(outcome.to), message);
                    },
                    None => {},
                }
            },
            ValidatedFaultKind::WanPrimaryDown => {
                self.wan_primary_failed_at = Some(at);
                self.wan_backup_status = Some(to_owned("active"));
                self.wan_failover_at = Some(at);
                push_event(
                    &mut self.timeline,
                    at,
                    "wan_failover",
                    Some(to_owned("wan.backup")),
                    to_owned("backup WAN activated after primary failure"),
                );
                let event = self.ops.record_slack_notification("wan_failover", None);
                push_ops_event(&mut self.timeline, at, event);
                assert(self@.ops == slack_sent(before.ops, "wan_failover"@));
            },
            ValidatedFaultKind::MqttDuplicateDelivery { topic, count } => {
                match topic {
                    Some(t) => {
                        let n: u32 = match count {
                            Some(c) => if *c < 2 {
                                2
                            } else {
                                *c
                            },
                            None => 2,
                        };
                        self.duplicate_delivery_by_topic.insert(to_owned(t.as_str()), n);
                    },
                    None => {},
                }
            },
            ValidatedFaultKind::NetworkSegmentIsolated { segment } => {
                let target = fault.target();
                let mut message = concat2("network segment ", segment.as_str());
                push_str(&mut message, " isolated");
                self.record_fault_profile(at, target.as_str(), "network_segment_isolated", message);
            },
            ValidatedFaultKind::FirewallPolicyDrift { policy } => {
                let target = fault.target();
                let mut message = concat2("firewall policy ", policy.as_str());
                push_str(&mut message, " drift detected");
                self.record_fault_profile(
                    at,
                    target.as_str(),
                    "firewall_policy_drift_detected",
                    message,
                );
            },
            ValidatedFaultKind::MqttLocalUnreachable => {
                self.record_fault_profile(
                    at,
                    "mqtt.local",
                    "local_broker_unreachable",
                    to_owned("local MQTT broker unreachable"),
                );
            },
            ValidatedFaultKind::ControlPanelUpsBatteryDegraded => {
                self.record_fault_profile(
                    at,
                    "control_panel.ups",
                    "control_panel_ups_degraded",
                    to_owned("control-panel UPS battery degraded"),
                );
            },
            ValidatedFaultKind::ControlPanelCircuitProtectorTripped { .. } => {
                let target = fault.target();
                let message = concat2(target.as_str(), " tripped");
                self.record_fault_profile(
                    at,
                    target.as_str(),
                    "control_panel_circuit_protector_tripped",
                    message,
                );
            },
            ValidatedFaultKind::ControlPanelPsuDegraded { .. } => {
                let target = fault.target();
                let message = concat2(target.as_str(), " degraded");
                self.record_fault_profile(
                    at,
                    target.as_str(),
                    "control_panel_redundant_psu_degraded",
                    message,
                );
            },
            ValidatedFaultKind::EdgeSecondaryTakeoverFailed => {
                self.record_fault_profile(
                    at,
                    "edge.secondary",
                    "edge_redundancy_takeover_failed",
                    to_owned("secondary edge takeover failed"),
                );
            },
            ValidatedFaultKind::DaliFixtureCommandDrop { fixture } => {
                match self.lighting.drop_command_for_fixture(fixture.as_str()) {
                    Ok(()) => {},
                    Err(error) => {
                        let message = error.message();
                        push_event(&mut self.timeline, at, "fault_rejected", Some(fault.target()), message);
                        return;
                    },
                }
            },
        }
        let target = fault.target();
        let message = concat2(fault.fault_type(), " fault activated");
        push_event(&mut self.timeline, at, "fault_activated", Some(target), message);
    }
}

// ---------------------------------------------------------------------------
// Intercom events
// ---------------------------------------------------------------------------

/// An intercom step as a scenario writes it.
pub struct IntercomStep {
    pub id: String,
    pub event: String,
    pub outcome: String,
    pub fallback: Option<String>,
}

/// An intercom step whose identifiers have been checked.
pub struct ValidatedIntercomStep {
    pub id: Identifier,
    pub event: Identifier,
    pub outcome: Identifier,
    pub fallback: Option<String>,
}

impl ValidatedIntercomStep {
    /// Checks the step's id, event and outcome identifiers, in that order.
    pub fn try_from_step(step: &IntercomStep) -> (r: Result<ValidatedIntercomStep, ScenarioError>)
        ensures
            match r {
                Ok(v) => v.id@ == step.id@ && v.event@ == step.event@ && v.outcome@ == step.outcome@
                    && opt_chars(v.fallback) == opt_chars(step.fallback) && crate::scenario::valid_identifier(step.id@)
                    && crate::scenario::valid_identifier(step.event@) && crate::scenario::valid_identifier(step.outcome@),
                Err(ScenarioError::InvalidIdentifier { field, value }) => (!crate::scenario::valid_identifier(step.id@)
                    && field@ == "steps[].intercom.id"@ && value@ == step.id@) || (crate::scenario::valid_identifier(step.id@)
                    && !crate::scenario::valid_identifier(step.event@) && field@ == "steps[].intercom.event"@
                    && value@ == step.event@) || (crate::scenario::valid_identifier(step.id@)
                    && crate::scenario::valid_identifier(step.event@) && !crate::scenario::valid_identifier(
                    step.outcome@,
                ) && field@ == "steps[].intercom.outcome"@ && value@ == step.outcome@),
                Err(_) => false,
            },
    {
        let id = Identifier::parse("steps[].intercom.id", step.id.as_str())?;
        let event = Identifier::parse("steps[].intercom.event", step.event.as_str())?;
        let outcome = Identifier::parse("steps[].intercom.outcome", step.outcome.as_str())?;
        let fallback = match &step.fallback {
            Some(f) => Some(f.clone()),
            None => None,
        };
        Ok(ValidatedIntercomStep { id, event, outcome, fallback })
    }
}

/// The event type an intercom observation is recorded under.
pub open spec fn intercom_event_type(event: Seq<char>, outcome: Seq<char>) -> Seq<char> {
    if event == "pin_check"@ && outcome == "accepted"@ {
        "intercom_pin_accepted"@
    } else if event == "pin_check"@ && outcome == "rejected"@ {
        "intercom_pin_rejected"@
    } else if event == "relay_pulse"@ && outcome == "requested"@ {
        "relay_pulse_requested"@
    } else if event == "staff_call"@ && outcome == "attempted"@ {
        "staff_call_attempted"@
    } else if outcome == "failed"@ {
        "intercom_failure_observed"@
    } else {
        "intercom_event_observed"@
    }
}

/// The state an intercom observation records.
pub open spec fn intercom_state(event: Seq<char>, outcome: Seq<char>, fallback: Option<Seq<char>>) -> Map<
    Seq<char>,
    ValueView,
> {
    let base = Map::<Seq<char>, ValueView>::empty().insert("event"@, ValueView::Str(event)).insert(
        "outcome"@,
        ValueView::Str(outcome),
    ).insert("real_unlock_controlled"@, ValueView::Bool(false));
    match fallback {
        Some(f) => base.insert("fallback"@, ValueView::Str(f)),
        None => base,
    }
}

/// The runtime after an intercom observation.
pub open spec fn intercom_effect(
    v: RuntimeView,
    at: int,
    id: Seq<char>,
    event: Seq<char>,
    outcome: Seq<char>,
    fallback: Option<Seq<char>>,
) -> RuntimeView {
    let key = "intercom."@ + id;
    let observed = v.timeline.push(
        entry(
            at,
            intercom_event_type(event, outcome),
            Some(key),
            "intercom safe mock observed "@ + event + " with outcome "@ + outcome,
        ),
    );
    RuntimeView {
        states: v.states.insert(key, intercom_state(event, outcome, fallback)),
        timeline: match fallback {
            Some(f) => observed.push(
                entry(at, "intercom_fallback_used"@, Some(key), "safe fallback selected: "@ + f),
            ),
            None => observed,
        },
        ..v
    }
}

fn intercom_event_type_of(event: &str, outcome: &str) -> (s: &'static str)
    ensures
        s@ == intercom_event_type(event@, outcome@),
{
    if str_eq(event, "pin_check") && str_eq(outcome, "accepted") {
        "intercom_pin_accepted"
    } else if str_eq(event, "pin_check") && str_eq(outcome, "rejected") {
        "intercom_pin_rejected"
    } else if str_eq(event, "relay_pulse") && str_eq(outcome, "requested") {
        "relay_pulse_requested"
    } else if str_eq(event, "staff_call") && str_eq(outcome, "attempted") {
        "staff_call_attempted"
    } else if str_eq(outcome, "failed") {
        "intercom_failure_observed"
    } else {
        "intercom_event_observed"
    }
}

impl RuntimeState {
    /// Records an intercom observation from the safe mock: its state under
    /// `intercom.<id>`, the observation and any fallback used.
    pub fn apply_intercom_step(&mut self, at: i64, intercom: &ValidatedIntercomStep)
        requires
            at > i64::MIN,
        ensures
            final(self)@ == intercom_effect(
                old(self)@,
                at as int,
                intercom.id@,
                intercom.event@,
                intercom.outcome@,
                opt_chars(intercom.fallback),
            ),
    {
        let ghost before = self@;
        let key = concat2("intercom.", intercom.id.as_str());
        let mut state: StrMap<Value> = StrMap::new();
        state.insert(to_owned("event"), Value::Str(to_owned(intercom.event.as_str())));
        state.insert(to_owned("outcome"), Value::Str(to_owned(intercom.outcome.as_str())));
        state.insert(to_owned("real_unlock_controlled"), Value::Bool(false));
        match &intercom.fallback {
            Some(f) => {
                state.insert(to_owned("fallback"), Value::Str(f.clone()));
            },
            None => {},
        }
        let ghost fb = opt_chars(intercom.fallback);
        assert(value_views(state@) =~= intercom_state(intercom.event@, intercom.outcome@, fb));
        self.states.insert(key.clone(), state);
        assert(nested_value_views(self.states@) =~= before.states.insert(
            key@,
            intercom_state(intercom.event@, intercom.outcome@, fb),
        ));
        let event_type = intercom_event_type_of(intercom.event.as_str(), intercom.outcome.as_str());
        let mut message = concat2("intercom safe mock observed ", intercom.event.as_str());
        push_str(&mut message, " with outcome ");
        push_str(&mut message, intercom.outcome.as_str());
        push_event(&mut self.timeline, at, event_type, Some(key.clone()), message);
        match &intercom.fallback {
            Some(f) => {
                let message = concat2("safe fallback selected: ", f.as_str());
                push_event(&mut self.timeline, at, "intercom_fallback_used", Some(key), message);
            },
            None => {},
        }
    }
}

// ---------------------------------------------------------------------------
// Commands and scenes
// ---------------------------------------------------------------------------

/// The timeline entry of a lighting event.
pub open spec fn lighting_entry(at: int, e: LightingEventView) -> EventView {
    match e {
        LightingEventView::LevelChanged { fixture, level } => entry(
            at,
            "dali_level_changed"@,
            Some(fixture),
            "fixture level changed to "@ + signed_decimal(level as int),
        ),
        LightingEventView::CommandDropped { fixture } => entry(
            at,
            "dali_command_dropped"@,
            Some(fixture),
            "fixture command dropped"@,
        ),
    }
}

/// The runtime after a scene activation is requested.
pub open spec fn scene_effect(v: RuntimeView, at: int, scene: Seq<char>) -> RuntimeView {
    let requested = entry(at, "scene_activation_requested"@, Some(scene), "scene activation requested"@);
    if v.lighting.scenes.contains_key(scene) {
        let targets = v.lighting.scenes[scene];
        RuntimeView {
            lighting: LightingView {
                levels: levels_after_scene(v.lighting.levels, targets, v.lighting.drops),
                ..v.lighting
            },
            timeline: (v.timeline + scene_events(targets, v.lighting.drops).map_values(
                |e: LightingEventView| lighting_entry(at, e),
            )).push(requested),
            ..v
        }
    } else {
        RuntimeView {
            timeline: v.timeline.push(
                entry(at, "scene_activation_failed"@, Some(scene), "unknown DALI scene "@ + scene),
            ).push(requested),
            ..v
        }
    }
}

/// The runtime after a command step: the command is recorded, and
/// `activate` on a scene activates it.
pub open spec fn command_effect(v: RuntimeView, at: int, target: CommandTarget, action: Seq<char>) -> RuntimeView {
    let received = RuntimeView {
        timeline: v.timeline.push(
            entry(
                at,
                "command_received"@,
                Some(
                    if target.spec_is_scene() {
                        "scene."@ + target.spec_id()
                    } else {
                        target.spec_id()
                    },
                ),
                action + " command received"@,
            ),
        ),
        ..v
    };
    if action == "activate"@ && target.spec_is_scene() {
        scene_effect(received, at, target.spec_id())
    } else {
        received
    }
}

impl RuntimeState {
    /// Activates a scene and records its lighting events.
    pub fn activate_scene(&mut self, at: i64, scene: &str)
        requires
            at > i64::MIN,
        ensures
            final(self)@ == scene_effect(old(self)@, at as int, scene@),
    {
        let ghost before = self@;
        let mut timeline: Vec<TimelineEvent> = Vec::new();
        std::mem::swap(&mut timeline, &mut self.timeline);
        match self.lighting.activate_scene(scene) {
            Ok(events) => {
                let ghost evs = events@.map_values(|e: LightingEvent| e@);
                let ghost t0 = timeline_view(timeline@);
                let mut i: usize = 0;
                while i < events.len()
                    invariant
                        i <= events.len(),
                        at > i64::MIN,
                        evs == events@.map_values(|e: LightingEvent| e@),
                        timeline_view(timeline@) == t0 + evs.take(i as int).map_values(
                            |e: LightingEventView| lighting_entry(at as int, e),
                        ),
                    decreases events.len() - i,
                {
                    match &events[i] {
                        LightingEvent::LevelChanged { fixture, level } => {
                            let n = i64_to_string(*level);
                            let message = concat2("fixture level changed to ", n.as_str());
                            push_event(&mut timeline, at, "dali_level_changed", Some(fixture.clone()), message);
                        },
                        LightingEvent::CommandDropped { fixture } => {
                            push_event(
                                &mut timeline,
                                at,
                                "dali_command_dropped",
                                Some(fixture.clone()),
                                to_owned("fixture command dropped"),
                            );
                        },
                    }
                    assert(evs.take(i + 1).map_values(|e: LightingEventView| lighting_entry(at as int, e))
                        =~= evs.take(i as int).map_values(|e: LightingEventView| lighting_entry(at as int, e)).push(
                        lighting_entry(at as int, evs[i as int]),
                    ));
                    i = i + 1;
                }
                assert(evs.take(events.len() as int) =~= evs);
            },
            Err(error) => {
                let message = error.message();
                push_event(&mut timeline, at, "scene_activation_failed", Some(to_owned(scene)), message);
            },
        }
        push_event(
            &mut timeline,
            at,
            "scene_activation_requested",
            Some(to_owned(scene)),
            to_owned("scene activation requested"),
        );
        self.timeline = timeline;
        assert(self@.lighting =~= scene_effect(before, at as int, scene@).lighting);
    }

    /// Records a command and, for `activate` on a scene, activates it.
    pub fn apply_command(&mut self, at: i64, target: &CommandTarget, action: &str)
        requires
            at > i64::MIN,
        ensures
            final(self)@ == command_effect(old(self)@, at as int, *target, action@),
    {
        let display = target.display_target();
        let message = concat2(action, " command received");
        push_event(&mut self.timeline, at, "command_received", Some(display), message);
        if str_eq(action, "activate") {
            match target {
                CommandTarget::Scene(scene) => {
                    self.activate_scene(at, scene.as_str());
                },
                CommandTarget::Other(_) => {},
            }
        }
    }
}

// ---------------------------------------------------------------------------
// MQTT publishes
// ---------------------------------------------------------------------------

/// An MQTT publish step as a scenario writes it.
pub struct MqttPublishStep {
    pub client: String,
    pub topic: String,
    pub payload: StrMap<Value>,
}

/// An MQTT publish step whose client and topic have been checked.
pub struct ValidatedMqttPublishStep {
    pub client: Identifier,
    pub topic: MqttTopic,
    pub payload: StrMap<Value>,
}

impl ValidatedMqttPublishStep {
    /// Checks the step's client identifier, then its topic.
    pub fn try_from_step(step: MqttPublishStep) -> (r: Result<ValidatedMqttPublishStep, ScenarioError>)
        ensures
            match r {
                Ok(v) => v.client@ == step.client@ && v.topic@ == step.topic@ && v.payload@
                    == step.payload@ && crate::scenario::valid_identifier(step.client@)
                    && crate::scenario::mqtt_topic_problem(step.topic@, false) is None,
                Err(ScenarioError::InvalidIdentifier { field, value }) => !crate::scenario::valid_identifier(step.client@)
                    && field@ == "steps[].mqtt_publish.client"@ && value@ == step.client@,
                Err(ScenarioError::InvalidMqttTopic { field, value, reason }) => crate::scenario::valid_identifier(step.client@)
                    && crate::scenario::mqtt_topic_problem(step.topic@, false) == Some(reason@) && field@
                    == "steps[].mqtt_publish.topic"@ && value@ == step.topic@,
                Err(_) => false,
            },
    {
        let client = Identifier::parse("steps[].mqtt_publish.client", step.client.as_str())?;
        let topic = MqttTopic::parse("steps[].mqtt_publish.topic", step.topic.as_str())?;
        Ok(ValidatedMqttPublishStep { client, topic, payload: step.payload })
    }
}

/// Each payload value in its JSON form.
pub open spec fn json_payload(p: Map<Seq<char>, ValueView>) -> Map<Seq<char>, ValueView> {
    p.map_values(|v: ValueView| json_or_null(v))
}

/// The runtime after a device command is published by `client`: the
/// publish is recorded; a topic that is not a device command topic, or no
/// active edge, stops it; else the edge routes it and the local broker
/// retains its JSON payload under the state topic, which also becomes the
/// device's state.
pub open spec fn publish_effect(
    v: RuntimeView,
    at: int,
    client: Seq<char>,
    topic: Seq<char>,
    payload: Map<Seq<char>, ValueView>,
) -> RuntimeView {
    let t1 = v.timeline.push(entry(at, "mqtt_publish"@, Some(client), "published "@ + topic));
    let deliveries = if v.duplicates.contains_key(topic) {
        v.duplicates[topic]
    } else {
        1u32
    };
    match command_topic_device_id(topic) {
        None => RuntimeView {
            timeline: t1.push(
                entry(
                    at,
                    "mqtt_publish_failed"@,
                    Some("mqtt.local"@),
                    "topic is not a device command topic: "@ + topic,
                ),
            ),
            ..v
        },
        Some(d) => match active_edge(v.edge) {
            None => RuntimeView {
                timeline: t1.push(
                    entry(at, "edge_command_failed"@, Some(d), "no active edge server is available"@),
                ),
                ..v
            },
            Some(e) => {
                let t2 = t1.push(
                    entry(
                        at,
                        "edge_command_routed"@,
                        Some(e),
                        "mqtt_command_route"@ + " routed command from "@ + client + " to "@ + d,
                    ),
                );
                if !broker_online(v.broker, "mqtt.local"@) {
                    RuntimeView {
                        timeline: t2.push(
                            entry(
                                at,
                                "mqtt_publish_failed"@,
                                Some("mqtt.local"@),
                                "broker "@ + "mqtt.local"@ + " is offline"@,
                            ),
                        ),
                        ..v
                    }
                } else if state_topic_of(topic) is None {
                    RuntimeView {
                        timeline: t2.push(
                            entry(
                                at,
                                "mqtt_publish_failed"@,
                                Some("mqtt.local"@),
                                "topic is not a device command topic: "@ + topic,
                            ),
                        ),
                        ..v
                    }
                } else {
                    let st = state_topic_of(topic)->Some_0;
                    let n = delivery_count(deliveries);
                    RuntimeView {
                        broker: after_publish(v.broker, client, st, json_payload(payload)),
                        states: v.states.insert(d, json_payload(payload)),
                        timeline: t2.push(
                            entry(
                                at,
                                "mqtt_retained_state_updated"@,
                                Some(d),
                                "retained state updated at "@ + st + " after "@ + decimal(n as nat)
                                    + " "@ + if n == 1 {
                                    "delivery"@
                                } else {
                                    "deliveries"@
                                },
                            ),
                        ),
                        ..v
                    }
                }
            },
        },
    }
}

impl RuntimeState {
    /// Publishes a device command from a scenario step through the edge and
    /// the local broker, recording each stage on the timeline.
    pub fn apply_mqtt_publish(&mut self, at: i64, publish: &ValidatedMqttPublishStep)
        requires
            at > i64::MIN,
        ensures
            final(self)@ == publish_effect(
                old(self)@,
                at as int,
                publish.client@,
                publish.topic@,
                value_views(publish.payload@),
            ),
    {
        let ghost before = self@;
        let client = publish.client.as_str();
        let topic = publish.topic.as_str();
        let message = concat2("published ", topic);
        push_event(&mut self.timeline, at, "mqtt_publish", Some(to_owned(client)), message);
        let deliveries: u32 = match self.duplicate_delivery_by_topic.get_copied(topic) {
            Some(n) => n,
            None => 1,
        };
        let device_id = match device_id_from_command_topic(topic) {
            Some(d) => d,
            None => {
                let message = concat2("topic is not a device command topic: ", topic);
                push_event(&mut self.timeline, at, "mqtt_publish_failed", Some(to_owned("mqtt.local")), message);
                return;
            },
        };
        let protocol = match self.protocols.get(device_id.as_str()) {
            Some(Some(p)) => Some(p.clone()),
            _ => None,
        };
        match self.edge.route_mqtt_command(client, device_id.as_str(), protocol) {
            Ok(routed) => {
                let mut message = concat2(routed.action.as_str(), " routed command from ");
                push_str(&mut message, routed.source_client.as_str());
                push_str(&mut message, " to ");
                push_str(&mut message, routed.target_device.as_str());
                push_event(&mut self.timeline, at, "edge_command_routed", Some(routed.edge_id), message);
            },
            Err(error) => {
                let message = error.message();
                push_event(&mut self.timeline, at, "edge_command_failed", Some(device_id), message);
                return;
            },
        }
        let payload = yaml_map_to_json(&publish.payload);
        assert(value_views(payload@) =~= json_payload(value_views(publish.payload@)));
        match self.broker.publish_device_command("mqtt.local", client, topic, payload, deliveries) {
            Ok(outcome) => {
                match (outcome.device_id, outcome.retained_payload) {
                    (Some(device), Some(retained)) => {
                        let ghost dv = device@;
                        let ghost rv = value_views(retained@);
                        self.states.insert(device.clone(), retained);
                        assert(nested_value_views(self.states@) =~= before.states.insert(dv, rv));
                        let state_topic = match outcome.state_topic {
                            Some(s) => s,
                            None => String::new(),
                        };
                        let mut message = concat2("retained state updated at ", state_topic.as_str());
                        push_str(&mut message, " after ");
                        let n = u64_to_string(outcome.deliveries as u64);
                        push_str(&mut message, n.as_str());
                        push_str(&mut message, " ");
                        if outcome.deliveries == 1 {
                            push_str(&mut message, "delivery");
                        } else {
                            push_str(&mut message, "deliveries");
                        }
                        push_event(
                            &mut self.timeline,
                            at,
                            "mqtt_retained_state_updated",
                            Some(device),
                            message,
                        );
                    },
                    _ => {},
                }
            },
            Err(error) => {
                let message = error.message();
                push_event(&mut self.timeline, at, "mqtt_publish_failed", Some(to_owned("mqtt.local")), message);
            },
        }
    }
}

// ---------------------------------------------------------------------------
// Target-condition assertions
// ---------------------------------------------------------------------------

/// The condition a target-condition assertion expects. `Between` bounds are
/// the bits of floating-point numbers, compared by the caller.
#[derive(Debug, Clone, Copy, PartialEq, Eq, Structural)]
pub enum Condition {
    Active,
    Available,
    Unaffected,
    False,
    Between { min: u64, max: u64 },
}

/// An assertion on one of the runtime's targets.
#[derive(Debug, Clone, Copy, PartialEq, Eq, Structural)]
pub enum ValidatedTargetConditionAssertion {
    EdgeSecondary { condition: Condition },
    MqttLocal { condition: Condition },
    WanBackup { condition: Condition },
    LivingAreaDiscomfortIndex { condition: Condition },
    UserOverride { condition: Condition },
    GuestExperience { condition: Condition },
}

/// An assertion result taken by its text.
pub struct ResultView {
    pub name: Seq<char>,
    pub assertion_type: Seq<char>,
    pub passed: bool,
    pub message: Seq<char>,
    pub impact_level: Option<Seq<char>>,
    pub impact_message: Option<Seq<char>>,
    pub reference_id: Option<Seq<char>>,
}

pub open spec fn result_view(r: AssertionResult) -> ResultView {
    ResultView {
        name: r.name@,
        assertion_type: r.assertion_type@,
        passed: r.passed,
        message: r.message@,
        impact_level: opt_chars(r.impact_level),
        impact_message: opt_chars(r.impact_message),
        reference_id: opt_chars(r.reference_id),
    }
}

pub open spec fn outcome(
    name: Seq<char>,
    assertion_type: Seq<char>,
    passed: bool,
    message: Seq<char>,
    level: Seq<char>,
    impact: Seq<char>,
) -> ResultView {
    ResultView {
        name,
        assertion_type,
        passed,
        message,
        impact_level: if passed {
            None
        } else {
            Some(level)
        },
        impact_message: if passed {
            None
        } else {
            Some(impact)
        },
        reference_id: None,
    }
}

/// Whether a failover happened within the expected window: true when no
/// window is expected, false when either time is missing.
pub open spec fn failover_timely(failed_at: Option<i64>, failover_at: Option<i64>, within: Option<i64>) -> bool {
    match within {
        None => true,
        Some(w) => match (failed_at, failover_at) {
            (Some(a), Some(b)) => b - a <= w,
            _ => false,
        },
    }
}

/// Whether the failover delay fits the duration range that times use.
pub open spec fn failover_delay_in_range(failed_at: Option<i64>, failover_at: Option<i64>) -> bool {
    match (failed_at, failover_at) {
        (Some(a), Some(b)) => -i64::MAX <= b - a <= i64::MAX,
        _ => true,
    }
}

/// The failover delay a target-condition assertion reads, if it reads one,
/// fits the duration range of times (a wider difference overflows it).
pub open spec fn target_delays_in_range(v: RuntimeView, kind: ValidatedTargetConditionAssertion) -> bool {
    match kind {
        ValidatedTargetConditionAssertion::EdgeSecondary { .. } => failover_delay_in_range(
            v.edge_primary_failed_at,
            v.edge_failover_at,
        ),
        ValidatedTargetConditionAssertion::WanBackup { .. } => failover_delay_in_range(
            v.wan_primary_failed_at,
            v.wan_failover_at,
        ),
        _ => true,
    }
}

/// The result of a target-condition assertion. `comfort_in_range` says
/// whether the living area's discomfort index met the condition.
pub open spec fn target_result(
    v: RuntimeView,
    kind: ValidatedTargetConditionAssertion,
    comfort_in_range: bool,
) -> ResultView {
    match kind {
        ValidatedTargetConditionAssertion::EdgeSecondary { condition } => {
            let status_passed = condition == Condition::Active && match v.edge.secondary {
                Some(s) => s.status == EdgeStatus::Active,
                None => false,
            };
            let timing_passed = failover_timely(
                v.edge_primary_failed_at,
                v.edge_failover_at,
                v.edge_expected_within,
            );
            let passed = status_passed && timing_passed;
            outcome(
                "edge.secondary"@,
                "edge_state"@,
                passed,
                if passed {
                    "secondary edge server is active"@
                } else {
                    "secondary edge server is not active"@
                },
                "high"@,
                "Edge failover did not preserve local control."@,
            )
        },
        ValidatedTargetConditionAssertion::MqttLocal { condition } => {
            let passed = condition == Condition::Available && broker_online(v.broker, "mqtt.local"@);
            outcome(
                "mqtt.local"@,
                "broker_state"@,
                passed,
                if passed {
                    "local MQTT broker is available"@
                } else {
                    "local MQTT broker is unavailable"@
                },
                "high"@,
                "Local MQTT broker is unavailable during failover."@,
            )
        },
        ValidatedTargetConditionAssertion::WanBackup { condition } => {
            let passed = condition == Condition::Active && v.wan_backup_status == Some("active"@)
                && failover_timely(v.wan_primary_failed_at, v.wan_failover_at, v.wan_expected_within);
            outcome(
                "wan.backup"@,
                "wan_failover"@,
                passed,
                if passed {
                    "backup WAN is active"@
                } else {
                    "backup WAN is not active within expected failover window"@
                },
                "high"@,
                "WAN failover did not preserve internet resilience."@,
            )
        },
        ValidatedTargetConditionAssertion::LivingAreaDiscomfortIndex { .. } => outcome(
            "living_area.discomfort_index"@,
            "comfort_metric"@,
            comfort_in_range,
            if comfort_in_range {
                "comfort metric stayed within expected range"@
            } else {
                "comfort metric did not reach expected range"@
            },
            "medium"@,
            "HVAC auto mode did not meet comfort expectation."@,
        ),
        ValidatedTargetConditionAssertion::UserOverride { condition } => {
            let passed = condition == Condition::False && v.user_override_count == 0;
            outcome(
                "user_override"@,
                "comfort_user_override"@,
                passed,
                if passed {
                    "no user override occurred"@
                } else {
                    "user override occurred"@
                },
                "medium"@,
                "Guest manually overrode comfort automation."@,
            )
        },
        ValidatedTargetConditionAssertion::GuestExperience { condition } => {
            let passed = condition == Condition::Unaffected && broker_online(v.broker, "mqtt.local"@)
                && active_edge(v.edge) is Some;
            outcome(
                "guest_experience"@,
                "guest_experience"@,
                passed,
                if passed {
                    "guest experience remained unaffected by local edge availability"@
                } else {
                    "guest experience was affected"@
                },
                "high"@,
                "Local edge or MQTT availability did not preserve guest experience."@,
            )
        },
    }
}

fn timely(failed_at: Option<i64>, failover_at: Option<i64>, within: Option<i64>) -> (b: bool)
    requires
        failover_delay_in_range(failed_at, failover_at),
    ensures
        b == failover_timely(failed_at, failover_at, within),
{
    match within {
        None => true,
        Some(w) => match (failed_at, failover_at) {
            (Some(a), Some(b)) => (b as i128) - (a as i128) <= (w as i128),
            _ => false,
        },
    }
}

pub(crate) fn result_of(
    name: &str,
    assertion_type: &str,
    passed: bool,
    message: &str,
    level: &str,
    impact: &str,
) -> (r: AssertionResult)
    ensures
        result_view(r) == outcome(name@, assertion_type@, passed, message@, level@, impact@),
{
    AssertionResult {
        name: to_owned(name),
        assertion_type: to_owned(assertion_type),
        passed,
        message: to_owned(message),
        impact_level: if passed {
            None
        } else {
            Some(to_owned(level))
        },
        impact_message: if passed {
            None
        } else {
            Some(to_owned(impact))
        },
        reference_id: None,
    }
}

impl RuntimeState {
    /// Evaluates a target-condition assertion against the runtime: the
    /// secondary edge active (and in time), the local broker available, the
    /// backup WAN active (and in time), the comfort metric in range (as
    /// `comfort_in_range` says), no user override, or an unaffected guest
    /// experience.
    pub fn evaluate_target_condition(
        &self,
        kind: &ValidatedTargetConditionAssertion,
        comfort_in_range: bool,
    ) -> (r: AssertionResult)
        requires
            target_delays_in_range(self@, *kind),
        ensures
            result_view(r) == target_result(self@, *kind, comfort_in_range),
    {
        match kind {
            ValidatedTargetConditionAssertion::EdgeSecondary { condition } => {
                let status_passed = *condition == Condition::Active && match self.edge.secondary_status() {
                    Some(s) => s == EdgeStatus::Active,
                    None => false,
                };
                let timing_passed = timely(
                    self.edge_primary_failed_at,
                    self.edge_failover_at,
                    self.edge_expected_within,
                );
                let passed = status_passed && timing_passed;
                result_of(
                    "edge.secondary",
                    "edge_state",
                    passed,
                    if passed {
                        "secondary edge server is active"
                    } else {
                        "secondary edge server is not active"
                    },
                    "high",
                    "Edge failover did not preserve local control.",
                )
            },
            ValidatedTargetConditionAssertion::MqttLocal { condition } => {
                let passed = *condition == Condition::Available && self.broker.is_online("mqtt.local");
                result_of(
                    "mqtt.local",
                    "broker_state",
                    passed,
                    if passed {
                        "local MQTT broker is available"
                    } else {
                        "local MQTT broker is unavailable"
                    },
                    "high",
                    "Local MQTT broker is unavailable during failover.",
                )
            },
            ValidatedTargetConditionAssertion::WanBackup { condition } => {
                let backup_active = match &self.wan_backup_status {
                    Some(s) => str_eq(s.as_str(), "active"),
                    None => false,
                };
                let passed = *condition == Condition::Active && backup_active && timely(
                    self.wan_primary_failed_at,
                    self.wan_failover_at,
                    self.wan_expected_within,
                );
                result_of(
                    "wan.backup",
                    "wan_failover",
                    passed,
                    if passed {
                        "backup WAN is active"
                    } else {
                        "backup WAN is not active within expected failover window"
                    },
                    "high",
                    "WAN failover did not preserve internet resilience.",
                )
            },
            ValidatedTargetConditionAssertion::LivingAreaDiscomfortIndex { .. } => result_of(
                "living_area.discomfort_index",
                "comfort_metric",
                comfort_in_range,
                if comfort_in_range {
                    "comfort metric stayed within expected range"
                } else {
                    "comfort metric did not reach expected range"
                },
                "medium",
                "HVAC auto mode did not meet comfort expectation.",
            ),
            ValidatedTargetConditionAssertion::UserOverride { condition } => {
                let passed = *condition == Condition::False && self.user_override_count == 0;
                result_of(
                    "user_override",
                    "comfort_user_override",
                    passed,
                    if passed {
                        "no user override occurred"
                    } else {
                        "user override occurred"
                    },
                    "medium",
                    "Guest manually overrode comfort automation.",
                )
            },
            ValidatedTargetConditionAssertion::GuestExperience { condition } => {
                let passed = *condition == Condition::Unaffected && self.broker.is_online("mqtt.local")
                    && self.edge.active_id().is_some();
                result_of(
                    "guest_experience",
                    "guest_experience",
                    passed,
                    if passed {
                        "guest experience remained unaffected by local edge availability"
                    } else {
                        "guest experience was affected"
                    },
                    "high",
                    "Local edge or MQTT availability did not preserve guest experience.",
                )
            },
        }
    }
}

// ---------------------------------------------------------------------------
// Contact steps
// ---------------------------------------------------------------------------

/// The runtime after a declared contact changes state: the change is
/// recorded, then what the ops model does about it (when the contact turns
/// `on`, the alerts it is the source of fire).
pub open spec fn contact_effect(v: RuntimeView, at: int, id: Seq<char>, state: Seq<char>) -> RuntimeView {
    let changed = v.timeline.push(
        entry(at, "contact_changed"@, Some(id), "contact state changed to "@ + state),
    );
    if state == "on"@ {
        let (ops, events) = alerts_fired(v.ops, v.ops.alerts, "contact."@ + id);
        RuntimeView {
            contacts: v.contacts.insert(id, state),
            ops,
            timeline: changed + events.map_values(|e: OpsEventView| ops_entry(at, e)),
            ..v
        }
    } else {
        RuntimeView { contacts: v.contacts.insert(id, state), timeline: changed, ..v }
    }
}

impl RuntimeState {
    /// Sets a contact's state and lets the ops model react; an undeclared
    /// contact is refused and changes nothing.
    pub fn apply_contact_step(&mut self, at: i64, id: &str, state: &str) -> (r: Result<(), DeviceModelError>)
        requires
            at > i64::MIN,
        ensures
            match r {
                Ok(()) => old(self)@.contacts.contains_key(id@) && final(self)@ == contact_effect(
                    old(self)@,
                    at as int,
                    id@,
                    state@,
                ),
                Err(DeviceModelError::UnknownContact(c)) => !old(self)@.contacts.contains_key(id@)
                    && c@ == id@ && final(self)@ == old(self)@,
                Err(_) => false,
            },
    {
        let ghost before = self@;
        match self.contacts.set_state(id, state) {
            Ok(()) => {},
            Err(e) => {
                return Err(e);
            },
        }
        let message = concat2("contact state changed to ", state);
        push_event(&mut self.timeline, at, "contact_changed", Some(to_owned(id)), message);
        let events = self.ops.apply_contact_change(id, state);
        let ghost evs = events@.map_values(|e: OpsEvent| e@);
        let mut timeline: Vec<TimelineEvent> = Vec::new();
        std::mem::swap(&mut timeline, &mut self.timeline);
        let ghost t0 = timeline_view(timeline@);
        let mut remaining = events;
        let mut taken: usize = 0;
        let n = remaining.len();
        while taken < n
            invariant
                taken <= n,
                remaining@.len() == n - taken,
                at > i64::MIN,
                forall|j: int| 0 <= j < n - taken ==> remaining@[j]@ == evs[taken + j],
                evs.len() == n,
                timeline_view(timeline@) == t0 + evs.take(taken as int).map_values(
                    |e: OpsEventView| ops_entry(at as int, e),
                ),
            decreases n - taken,
        {
            let event = remaining.remove(0);
            let ghost ev = event@;
            assert(ev == evs[taken as int]);
            push_ops_event(&mut timeline, at, event);
            assert(evs.take(taken + 1).map_values(|e: OpsEventView| ops_entry(at as int, e))
                =~= evs.take(taken as int).map_values(|e: OpsEventView| ops_entry(at as int, e)).push(
                ops_entry(at as int, evs[taken as int]),
            ));
            assert forall|j: int| 0 <= j < n - (taken + 1) implies remaining@[j]@ == evs[(taken + 1) + j] by {
            }
            taken = taken + 1;
        }
        assert(evs.take(n as int) =~= evs);
        self.timeline = timeline;
        Ok(())
    }
}

// ---------------------------------------------------------------------------
// Register writes, ops steps and automation
// ---------------------------------------------------------------------------

/// What a register write step does: a write the model refuses is recorded
/// with the reason; else the register takes the JSON form of the value and
/// the write is recorded with `value_text`, the caller's JSON text of that
/// form.
pub open spec fn modbus_write_effect(
    v: RuntimeView,
    at: int,
    device: Seq<char>,
    register: u32,
    value: ValueView,
    value_text: Seq<char>,
) -> RuntimeView {
    let m = v.modbus;
    if !m.contains_key(device) {
        RuntimeView {
            timeline: v.timeline.push(
                entry(at, "modbus_write_rejected"@, Some(device), "unknown Modbus device "@ + device),
            ),
            ..v
        }
    } else if !m[device].contains_key(register) {
        RuntimeView {
            timeline: v.timeline.push(
                entry(
                    at,
                    "modbus_write_rejected"@,
                    Some(device),
                    "unknown Modbus register "@ + device + ":"@ + decimal(register as nat),
                ),
            ),
            ..v
        }
    } else if m[device][register].access == crate::modbus::ModbusRegisterAccess::ReadOnly {
        RuntimeView {
            timeline: v.timeline.push(
                entry(
                    at,
                    "modbus_write_rejected"@,
                    Some(device),
                    "Modbus register "@ + device + ":"@ + decimal(register as nat) + " is read-only"@,
                ),
            ),
            ..v
        }
    } else {
        RuntimeView {
            modbus: m.insert(
                device,
                m[device].insert(
                    register,
                    crate::modbus::RegisterView {
                        value: json_or_null(value),
                        value_type: m[device][register].value_type,
                        access: crate::modbus::ModbusRegisterAccess::ReadWrite,
                    },
                ),
            ),
            timeline: v.timeline.push(
                entry(
                    at,
                    "modbus_write"@,
                    Some(device),
                    "register "@ + decimal(register as nat) + " set to "@ + value_text,
                ),
            ),
            ..v
        }
    }
}

/// What an ops step does: an acknowledgement acknowledges every ticket for
/// the assignee and records each, in ticket order (`ids`); every ops step
/// then records that it was applied.
pub open spec fn ops_step_effect(
    v: RuntimeView,
    ids: Seq<Seq<char>>,
    at: int,
    acknowledge: bool,
    assignee: Option<Seq<char>>,
) -> RuntimeView {
    let acked = if acknowledge {
        RuntimeView {
            ops: OpsView {
                tickets: v.ops.tickets.map_values(
                    |t: crate::ops::TicketView| crate::ops::TicketView { status: "acknowledged"@, assignee },
                ),
                ..v.ops
            },
            timeline: v.timeline + ids.map_values(
                |k: Seq<char>|
                    ops_entry(at, OpsEventView::TicketAcknowledged { alert_id: k, assignee }),
            ),
            ..v
        }
    } else {
        v
    };
    RuntimeView {
        timeline: acked.timeline.push(entry(at, "ops_action"@, None, "ops action applied"@)),
        ..acked
    }
}

fn push_ops_events(timeline: &mut Vec<TimelineEvent>, at: i64, events: Vec<OpsEvent>)
    requires
        at > i64::MIN,
    ensures
        timeline_view(final(timeline)@) == timeline_view(old(timeline)@) + events@.map_values(
            |e: OpsEvent| ops_entry(at as int, e@),
        ),
{
    let ghost t0 = timeline_view(timeline@);
    let ghost all = events@;
    let mut remaining = events;
    let mut taken: usize = 0;
    let n = remaining.len();
    while taken < n
        invariant
            taken <= n,
            n == all.len(),
            remaining@.len() == n - taken,
            at > i64::MIN,
            forall|j: int| 0 <= j < n - taken ==> remaining@[j] == all[taken + j],
            timeline_view(timeline@) == t0 + all.take(taken as int).map_values(
                |e: OpsEvent| ops_entry(at as int, e@),
            ),
        decreases n - taken,
    {
        let event = remaining.remove(0);
        assert(event == all[taken as int]);
        push_ops_event(timeline, at, event);
        assert(all.take(taken + 1).map_values(|e: OpsEvent| ops_entry(at as int, e@)) =~= all.take(
            taken as int,
        ).map_values(|e: OpsEvent| ops_entry(at as int, e@)).push(ops_entry(at as int, all[taken as int]@)));
        taken = taken + 1;
    }
    assert(all.take(n as int) =~= all);
}

impl RuntimeState {
    /// Applies a register write step; `value_text` is the caller's JSON
    /// text of the value's JSON form, which may hold a float.
    pub fn apply_modbus_write(&mut self, at: i64, device: &str, register: u32, value: Value, value_text: &str)
        requires
            at > i64::MIN,
        ensures
            final(self)@ == modbus_write_effect(old(self)@, at as int, device@, register, value@, value_text@),
    {
        let ghost before = self@;
        match self.modbus.write(device, register, value) {
            Ok(_) => {
                let mut message = concat2("register ", u64_to_string(register as u64).as_str());
                push_str(&mut message, " set to ");
                push_str(&mut message, value_text);
                push_event(&mut self.timeline, at, "modbus_write", Some(to_owned(device)), message);
            },
            Err(e) => {
                let message = e.message();
                push_event(&mut self.timeline, at, "modbus_write_rejected", Some(to_owned(device)), message);
            },
        }
        assert(self@ =~= modbus_write_effect(before, at as int, device@, register, value@, value_text@));
    }

    /// Applies an ops step: an acknowledgement for `assignee` when
    /// `acknowledge`, then the record that the step was applied.
    pub fn apply_ops_step(&mut self, at: i64, acknowledge: bool, assignee: Option<String>)
        requires
            at > i64::MIN,
        ensures
            final(self)@ == ops_step_effect(old(self)@, old(self).ops.ticket_ids(), at as int, acknowledge, opt_chars(assignee)),
    {
        let ghost before = self@;
        let ghost ids = self.ops.ticket_ids();
        let ghost a = opt_chars(assignee);
        if acknowledge {
            let events = self.ops.acknowledge(assignee);
            let ghost evs = events@.map_values(|e: OpsEvent| e@);
            let ghost want = ids.map_values(
                |k: Seq<char>| OpsEventView::TicketAcknowledged { alert_id: k, assignee: a },
            );
            assert(evs == want);
            assert(evs.len() == events@.len());
            assert(want.len() == ids.len());
            assert(events@.map_values(|e: OpsEvent| ops_entry(at as int, e@)) =~= ids.map_values(
                |k: Seq<char>| ops_entry(at as int, OpsEventView::TicketAcknowledged { alert_id: k, assignee: a }),
            )) by {
                assert forall|j: int| 0 <= j < events@.len() implies events@[j]@ == (
                OpsEventView::TicketAcknowledged { alert_id: ids[j], assignee: a }) by {
                    assert(evs[j] == events@[j]@);
                    assert(want[j] == OpsEventView::TicketAcknowledged { alert_id: ids[j], assignee: a });
                }
            }
            push_ops_events(&mut self.timeline, at, events);
            assert(self@.ops.tickets =~= before.ops.tickets.map_values(
                |t: crate::ops::TicketView| crate::ops::TicketView { status: "acknowledged"@, assignee: a },
            ));
        }
        push_event(&mut self.timeline, at, "ops_action", None, to_owned("ops action applied"));
        assert(self@ =~= ops_step_effect(before, ids, at as int, acknowledge, a));
    }

    /// Records that an automation step started.
    pub fn apply_automation_started(&mut self, at: i64)
        requires
            at > i64::MIN,
        ensures
            final(self)@ == (RuntimeView {
                timeline: old(self)@.timeline.push(entry(at as int, "automation_started"@, None, "automation started"@)),
                ..old(self)@
            }),
    {
        let ghost before = self@;
        push_event(&mut self.timeline, at, "automation_started", None, to_owned("automation started"));
        assert(self@ =~= RuntimeView {
            timeline: before.timeline.push(entry(at as int, "automation_started"@, None, "automation started"@)),
            ..before
        });
    }
}

// ---------------------------------------------------------------------------
// The start of a run
// ---------------------------------------------------------------------------

/// A scenario device as a run starts from it.
pub struct RuntimeDevice {
    pub id: String,
    pub state: StrMap<Value>,
    pub protocol: Option<String>,
}

/// Device states by id; a later device with the same id wins.
pub open spec fn device_states(ds: Seq<RuntimeDevice>) -> Map<Seq<char>, Map<Seq<char>, ValueView>>
    decreases ds.len(),
{
    if ds.len() == 0 {
        Map::empty()
    } else {
        device_states(ds.drop_last()).insert(ds.last().id@, value_views(ds.last().state@))
    }
}

/// Device protocols by id; a later device with the same id wins.
pub open spec fn device_protocols(ds: Seq<RuntimeDevice>) -> Map<Seq<char>, Option<String>>
    decreases ds.len(),
{
    if ds.len() == 0 {
        Map::empty()
    } else {
        device_protocols(ds.drop_last()).insert(ds.last().id@, ds.last().protocol)
    }
}

impl RuntimeState {
    /// The state a run starts from: each device's declared state and
    /// protocol, an online local broker (the cloud broker as configured),
    /// the configured models and failover windows, and an empty timeline.
    pub fn new(
        devices: &Vec<RuntimeDevice>,
        broker_cloud_enabled: bool,
        edge: EdgeModel,
        edge_expected_within: Option<i64>,
        wan_expected_within: Option<i64>,
        wan_backup_status: Option<String>,
        modbus: ModbusModel,
        lighting: LightingModel,
        contacts: ContactModel,
        ops: OpsModel,
        unexpected_users: Vec<String>,
        commissioning_check_count: usize,
        commissioning_site: Option<String>,
    ) -> (r: Self)
        ensures
            r@.states == device_states(devices@),
            r@.protocols == device_protocols(devices@),
            r@.broker.online == Map::<Seq<char>, bool>::empty().insert("mqtt.local"@, true).insert(
                "mqtt.cloud"@,
                broker_cloud_enabled,
            ),
            r@.broker.retained == Map::<Seq<char>, Map<Seq<char>, ValueView>>::empty(),
            r@.broker.inboxes == Map::<Seq<char>, Map<Seq<char>, Map<Seq<char>, ValueView>>>::empty(),
            r@.edge == edge@,
            r@.edge_primary_failed_at is None,
            r@.edge_failover_at is None,
            r@.edge_expected_within == edge_expected_within,
            r@.wan_primary_failed_at is None,
            r@.wan_failover_at is None,
            r@.wan_expected_within == wan_expected_within,
            r@.wan_backup_status == opt_chars(wan_backup_status),
            r@.duplicates == Map::<Seq<char>, u32>::empty(),
            r@.modbus == modbus@,
            r@.lighting == lighting@,
            r@.contacts == contacts@,
            r@.ops == ops@,
            r@.user_override_count == 0,
            r@.unexpected_users == string_texts(unexpected_users@),
            r@.commissioning_check_count == commissioning_check_count,
            r@.commissioning_site == opt_chars(commissioning_site),
            r@.timeline == Seq::<EventView>::empty(),
    {
        let mut states: StrMap<StrMap<Value>> = StrMap::new();
        let mut protocols: StrMap<Option<String>> = StrMap::new();
        assert(nested_value_views(states@) =~= Map::<Seq<char>, Map<Seq<char>, ValueView>>::empty());
        let mut i: usize = 0;
        assert(devices@.take(0) =~= Seq::<RuntimeDevice>::empty());
        while i < devices.len()
            invariant
                i <= devices.len(),
                nested_value_views(states@) == device_states(devices@.take(i as int)),
                protocols@ == device_protocols(devices@.take(i as int)),
            decreases devices.len() - i,
        {
            let d = &devices[i];
            assert(devices@.take(i + 1).drop_last() =~= devices@.take(i as int));
            let ghost before = nested_value_views(states@);
            let copy = clone_values(&d.state);
            states.insert(d.id.clone(), copy);
            assert(nested_value_views(states@) =~= before.insert(d.id@, value_views(d.state@)));
            let protocol = match &d.protocol {
                Some(p) => Some(p.clone()),
                None => None,
            };
            assert(protocol == d.protocol);
            protocols.insert(d.id.clone(), protocol);
            i = i + 1;
        }
        assert(devices@.take(devices.len() as int) =~= devices@);
        let r = RuntimeState {
            states,
            protocols,
            broker: BrokerModel::new(true, broker_cloud_enabled),
            edge,
            edge_primary_failed_at: None,
            edge_failover_at: None,
            edge_expected_within,
            wan_primary_failed_at: None,
            wan_failover_at: None,
            wan_expected_within,
            wan_backup_status,
            duplicate_delivery_by_topic: StrMap::new(),
            modbus,
            lighting,
            contacts,
            ops,
            user_override_count: 0,
            unexpected_users,
            commissioning_check_count,
            commissioning_site,
            timeline: Vec::new(),
        };
        assert(timeline_view(r.timeline@) =~= Seq::<EventView>::empty());
        r
    }
}

/// A device command that reaches the local broker leaves the device's
/// state and the message retained at its state topic equal.
pub proof fn law_published_state_matches_retained(
    v: RuntimeView,
    at: int,
    client: Seq<char>,
    topic: Seq<char>,
    payload: Map<Seq<char>, ValueView>,
)
    requires
        command_topic_device_id(topic) is Some,
        active_edge(v.edge) is Some,
        broker_online(v.broker, "mqtt.local"@),
        state_topic_of(topic) is Some,
    ensures
        ({
            let after = publish_effect(v, at, client, topic, payload);
            &&& after.states.contains_key(command_topic_device_id(topic)->Some_0)
            &&& after.broker.retained.contains_key(state_topic_of(topic)->Some_0)
            &&& after.states[command_topic_device_id(topic)->Some_0] == after.broker.retained[state_topic_of(
                topic,
            )->Some_0]
        }),
{
}

} // verus!

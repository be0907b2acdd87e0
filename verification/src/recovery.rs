//! The decisions of an external MQTT recovery check, as a state machine.
//! The check publishes a desired value, cuts the system under test off its
//! broker through a proxy, publishes a newer value while it is offline,
//! restores the path, and expects the newer value to be reported and to
//! stay. The caller performs each action (waiting, publishing, switching
//! the proxy, probing) and hands back what happened; the machine records
//! the milestones and decides the outcome.

use vstd::prelude::*;

use crate::cli::{Contract, Outcome};
use crate::ops::opt_chars;
use crate::report::{AssertionResult, RunReport, RunResult, TimelineEvent};
use crate::runtime::{event_view, result_view, timeline_view, EventView, ResultView};
use crate::strmap::{nested_value_views, value_views, StrMap};
use crate::json::{json_quote, json_string};
use crate::text::{concat2, decimal, push_str, to_owned, u64_to_string};
use crate::value::{value_get, view_get, view_str, view_u64, Value, ValueView};

verus! {

/// Where the check stands: the action it waits on.
#[derive(Debug, Clone, Copy, PartialEq, Eq, Structural)]
pub enum RecoveryStage {
    AwaitObserver,
    PublishInitial,
    AwaitInitialReport,
    DisableProxy,
    ConfirmBlocked,
    AwaitOffline,
    PublishLatest,
    EnableProxy,
    ProbePath,
    AwaitLatestReport,
    HoldStable,
    Finished,
}

/// What came of the last action.
#[derive(Debug)]
pub enum RecoveryEvent {
    /// The awaited condition held before its deadline.
    Satisfied,
    /// The deadline passed first.
    Expired,
    /// The publish or proxy change was confirmed.
    Done,
    /// Whether the proxy refuses new connections.
    Observed(bool),
    /// A report taken from the system under test, with its JSON text.
    Report { value: Value, text: String },
    /// The action failed, with the reason.
    Failed(String),
}

/// What to do next.
#[derive(Debug)]
pub enum RecoveryAction {
    /// Wait until the observer holds both subscriptions.
    AwaitSubscriptions { timeout_ms: u64 },
    /// Publish a desired revision and wait for the broker's acknowledgement,
    /// first forgetting the last report when `clear_report`.
    PublishDesired { revision: u64, value: String, timeout_ms: u64, clear_report: bool },
    /// Wait for a report of this revision and value.
    AwaitReport { revision: u64, value: String, timeout_ms: u64 },
    /// Enable or disable the proxy and confirm its state, first forgetting
    /// the last status when `clear_status`.
    SetProxy { enabled: bool, clear_status: bool },
    /// Check whether the proxy refuses new connections.
    CheckBlocked,
    /// Wait for the system under test to be reported offline.
    AwaitOffline { timeout_ms: u64 },
    /// Start the recovery window and probe an MQTT connection through the
    /// proxy for at most a second of it.
    ProbePath { recovery_timeout_ms: u64 },
    /// Take the next report within the recovery window that `ProbePath`
    /// opened.
    AwaitLatestReport,
    /// Watch reports until this long after the first `HoldStable` of the
    /// run; a repeated `HoldStable` continues the same window.
    HoldStable { stability_ms: u64 },
    /// The check is over.
    Finish(Outcome),
}

/// A milestone to record on the timeline.
#[derive(Debug)]
pub struct RecordEntry {
    pub event_type: String,
    pub target: Option<String>,
    pub message: String,
}

/// A transition: the next stage, the milestones reached and the action.
#[derive(Debug)]
pub struct RecoveryStep {
    pub next: RecoveryStage,
    pub records: Vec<RecordEntry>,
    pub action: RecoveryAction,
}

pub struct RecordView {
    pub event_type: Seq<char>,
    pub target: Option<Seq<char>>,
    pub message: Seq<char>,
}

pub enum ActionView {
    AwaitSubscriptions { timeout_ms: u64 },
    PublishDesired { revision: u64, value: Seq<char>, timeout_ms: u64, clear_report: bool },
    AwaitReport { revision: u64, value: Seq<char>, timeout_ms: u64 },
    SetProxy { enabled: bool, clear_status: bool },
    CheckBlocked,
    AwaitOffline { timeout_ms: u64 },
    ProbePath { recovery_timeout_ms: u64 },
    AwaitLatestReport,
    HoldStable { stability_ms: u64 },
    Finish { verdict: Seq<char>, reason: Seq<char> },
}

pub open spec fn record_view(r: RecordEntry) -> RecordView {
    RecordView { event_type: r.event_type@, target: opt_chars(r.target), message: r.message@ }
}

pub open spec fn action_view(a: RecoveryAction) -> ActionView {
    match a {
        RecoveryAction::AwaitSubscriptions { timeout_ms } => ActionView::AwaitSubscriptions { timeout_ms },
        RecoveryAction::PublishDesired { revision, value, timeout_ms, clear_report } =>
            ActionView::PublishDesired { revision, value: value@, timeout_ms, clear_report },
        RecoveryAction::AwaitReport { revision, value, timeout_ms } => ActionView::AwaitReport {
            revision,
            value: value@,
            timeout_ms,
        },
        RecoveryAction::SetProxy { enabled, clear_status } => ActionView::SetProxy {
            enabled,
            clear_status,
        },
        RecoveryAction::CheckBlocked => ActionView::CheckBlocked,
        RecoveryAction::AwaitOffline { timeout_ms } => ActionView::AwaitOffline { timeout_ms },
        RecoveryAction::ProbePath { recovery_timeout_ms } => ActionView::ProbePath {
            recovery_timeout_ms,
        },
        RecoveryAction::AwaitLatestReport => ActionView::AwaitLatestReport,
        RecoveryAction::HoldStable { stability_ms } => ActionView::HoldStable { stability_ms },
        RecoveryAction::Finish(o) => ActionView::Finish {
            verdict: o.spec_verdict(),
            reason: o.spec_reason(),
        },
    }
}

pub struct StepView {
    pub next: RecoveryStage,
    pub records: Seq<RecordView>,
    pub action: ActionView,
}

pub open spec fn step_view(s: RecoveryStep) -> StepView {
    StepView {
        next: s.next,
        records: s.records@.map_values(|r: RecordEntry| record_view(r)),
        action: action_view(s.action),
    }
}

/// The revision a report carries.
pub open spec fn report_revision(v: ValueView) -> Option<int> {
    match view_get(v, "revision"@) {
        Some(r) => view_u64(r),
        None => None,
    }
}

/// Whether a report carries exactly this revision and value.
pub open spec fn report_matches(v: ValueView, revision: u64, expected: Seq<char>) -> bool {
    report_revision(v) == Some(revision as int) && match view_get(v, "value"@) {
        Some(x) => view_str(x) == Some(expected),
        None => false,
    }
}

/// Whether a report carries exactly `revision` and `expected`.
pub fn matches_report(value: &Value, revision: u64, expected: &str) -> (b: bool)
    ensures
        b == report_matches(value@, revision, expected@),
{
    let rev = match value_get(value, "revision") {
        Some(r) => r.as_u64(),
        None => None,
    };
    match rev {
        Some(n) => if n != revision {
            return false;
        },
        None => {
            return false;
        },
    }
    match value_get(value, "value") {
        Some(x) => match x.as_str() {
            Some(s) => crate::text::str_eq(s.as_str(), expected),
            None => false,
        },
        None => false,
    }
}

pub open spec fn rec(event_type: Seq<char>, target: Option<Seq<char>>, message: Seq<char>) -> RecordView {
    RecordView { event_type, target, message }
}

pub open spec fn finish(next_verdict: Seq<char>, reason: Seq<char>) -> ActionView {
    ActionView::Finish { verdict: next_verdict, reason }
}

pub open spec fn inconclusive(reason: Seq<char>) -> StepView {
    StepView {
        next: RecoveryStage::Finished,
        records: Seq::empty(),
        action: finish("inconclusive"@, reason),
    }
}

pub open spec fn failed(reason: Seq<char>) -> StepView {
    StepView { next: RecoveryStage::Finished, records: Seq::empty(), action: finish("failed"@, reason) }
}

pub open spec fn go(next: RecoveryStage, records: Seq<RecordView>, action: ActionView) -> StepView {
    StepView { next, records, action }
}

/// The events an action can end with.
pub open spec fn expected_event(stage: RecoveryStage, e: RecoveryEvent) -> bool {
    match stage {
        RecoveryStage::AwaitObserver | RecoveryStage::AwaitInitialReport | RecoveryStage::AwaitOffline
        | RecoveryStage::ProbePath => e is Satisfied || e is Expired || e is Failed,
        RecoveryStage::PublishInitial | RecoveryStage::DisableProxy | RecoveryStage::PublishLatest
        | RecoveryStage::EnableProxy => e is Done || e is Failed,
        RecoveryStage::ConfirmBlocked => e is Observed || e is Failed,
        RecoveryStage::AwaitLatestReport | RecoveryStage::HoldStable => e is Report || e is Expired
            || e is Failed,
        RecoveryStage::Finished => false,
    }
}

/// The transition the check makes on an event.
pub open spec fn transition(c: Contract, stage: RecoveryStage, e: RecoveryEvent) -> StepView {
    let proxy = Some(c.proxy_name@);
    match e {
        RecoveryEvent::Failed(err) => match stage {
            RecoveryStage::DisableProxy => inconclusive("fault_not_applied: "@ + err@),
            RecoveryStage::EnableProxy => inconclusive("fault_release_failed: "@ + err@),
            _ => inconclusive(err@),
        },
        _ => match stage {
            RecoveryStage::AwaitObserver => if e is Satisfied {
                go(
                    RecoveryStage::PublishInitial,
                    seq![rec("observer_ready"@, None, "reported and status SUBACK received"@)],
                    ActionView::PublishDesired {
                        revision: 1,
                        value: c.initial_value@,
                        timeout_ms: c.ready_timeout_ms,
                        clear_report: false,
                    },
                )
            } else {
                inconclusive("observer_not_ready"@)
            },
            RecoveryStage::PublishInitial => go(
                RecoveryStage::AwaitInitialReport,
                Seq::empty(),
                ActionView::AwaitReport {
                    revision: 1,
                    value: c.initial_value@,
                    timeout_ms: c.ready_timeout_ms,
                },
            ),
            RecoveryStage::AwaitInitialReport => if e is Satisfied {
                go(
                    RecoveryStage::DisableProxy,
                    seq![
                        rec("initial_ready"@, None, "SUT reported initial revision 1"@),
                        rec("fault_requested"@, proxy, "disable SUT-only TCP proxy"@),
                    ],
                    ActionView::SetProxy { enabled: false, clear_status: true },
                )
            } else {
                inconclusive("initial_report_missing"@)
            },
            RecoveryStage::DisableProxy => go(
                RecoveryStage::ConfirmBlocked,
                seq![rec("fault_applied"@, proxy, "proxy disabled and GET confirmed"@)],
                ActionView::CheckBlocked,
            ),
            RecoveryStage::ConfirmBlocked => if e matches RecoveryEvent::Observed(true) {
                go(
                    RecoveryStage::AwaitOffline,
                    Seq::empty(),
                    ActionView::AwaitOffline { timeout_ms: c.fault_timeout_ms },
                )
            } else {
                inconclusive("fault_not_applied: proxy_still_accepts_connections"@)
            },
            RecoveryStage::AwaitOffline => if e is Satisfied {
                go(
                    RecoveryStage::PublishLatest,
                    seq![
                        rec(
                            "fault_affected_sut"@,
                            None,
                            "broker emitted SUT offline will; proxy rejects new TCP connections"@,
                        ),
                    ],
                    ActionView::PublishDesired {
                        revision: 2,
                        value: c.latest_value@,
                        timeout_ms: c.fault_timeout_ms,
                        clear_report: true,
                    },
                )
            } else {
                inconclusive("fault_not_affected: sut_disconnect_not_observed"@)
            },
            RecoveryStage::PublishLatest => go(
                RecoveryStage::EnableProxy,
                Seq::empty(),
                ActionView::SetProxy { enabled: true, clear_status: false },
            ),
            RecoveryStage::EnableProxy => go(
                RecoveryStage::ProbePath,
                Seq::empty(),
                ActionView::ProbePath { recovery_timeout_ms: c.recovery_timeout_ms },
            ),
            RecoveryStage::ProbePath => if e is Satisfied {
                go(
                    RecoveryStage::AwaitLatestReport,
                    seq![
                        rec(
                            "fault_released"@,
                            proxy,
                            "proxy enabled and GET confirmed; MQTT CONNACK through proxy confirmed"@,
                        ),
                    ],
                    ActionView::AwaitLatestReport,
                )
            } else {
                inconclusive("fault_release_failed: MQTT path unavailable"@)
            },
            RecoveryStage::AwaitLatestReport => match e {
                RecoveryEvent::Report { value, text } => if report_revision(value@) == Some(2int) {
                    if !report_matches(value@, 2, c.latest_value@) {
                        failed("wrong_latest_value"@)
                    } else {
                        go(
                            RecoveryStage::HoldStable,
                            seq![rec("latest_reached"@, None, text@)],
                            ActionView::HoldStable { stability_ms: c.stability_ms },
                        )
                    }
                } else {
                    go(
                        RecoveryStage::AwaitLatestReport,
                        seq![rec("stale_report"@, None, text@)],
                        ActionView::AwaitLatestReport,
                    )
                },
                _ => failed("missing_latest_report"@),
            },
            RecoveryStage::HoldStable => match e {
                RecoveryEvent::Report { value, .. } => if !report_matches(value@, 2, c.latest_value@) {
                    failed("rollback_observed"@)
                } else {
                    go(
                        RecoveryStage::HoldStable,
                        Seq::empty(),
                        ActionView::HoldStable { stability_ms: c.stability_ms },
                    )
                },
                _ => StepView {
                    next: RecoveryStage::Finished,
                    records: Seq::empty(),
                    action: finish("passed"@, "latest_report_stable"@),
                },
            },
            RecoveryStage::Finished => inconclusive(Seq::empty()),
        },
    }
}

fn record(event_type: &str, target: Option<String>, message: &str) -> (r: RecordEntry)
    ensures
        record_view(r) == rec(event_type@, opt_chars(target), message@),
{
    RecordEntry { event_type: to_owned(event_type), target, message: to_owned(message) }
}

fn no_records() -> (r: Vec<RecordEntry>)
    ensures
        r@.map_values(|x: RecordEntry| record_view(x)) == Seq::<RecordView>::empty(),
{
    let r: Vec<RecordEntry> = Vec::new();
    assert(r@.map_values(|x: RecordEntry| record_view(x)) =~= Seq::<RecordView>::empty());
    r
}

fn one_record(a: RecordEntry) -> (r: Vec<RecordEntry>)
    ensures
        r@.map_values(|x: RecordEntry| record_view(x)) == seq![record_view(a)],
{
    let ghost av = record_view(a);
    let r = vec![a];
    assert(r@.map_values(|x: RecordEntry| record_view(x)) =~= seq![av]);
    r
}

fn end_inconclusive(reason: String) -> (s: RecoveryStep)
    ensures
        step_view(s) == inconclusive(reason@),
{
    RecoveryStep {
        next: RecoveryStage::Finished,
        records: no_records(),
        action: RecoveryAction::Finish(Outcome::Inconclusive(reason)),
    }
}

fn end_failed(reason: &'static str) -> (s: RecoveryStep)
    ensures
        step_view(s) == failed(reason@),
{
    RecoveryStep { next: RecoveryStage::Finished, records: no_records(), action: RecoveryAction::Finish(Outcome::Failed(reason)) }
}

/// The first action of a check: wait for the observer's subscriptions.
pub fn recovery_start(contract: &Contract) -> (s: RecoveryStep)
    ensures
        step_view(s) == go(
            RecoveryStage::AwaitObserver,
            Seq::empty(),
            ActionView::AwaitSubscriptions { timeout_ms: contract.ready_timeout_ms },
        ),
{
    RecoveryStep {
        next: RecoveryStage::AwaitObserver,
        records: no_records(),
        action: RecoveryAction::AwaitSubscriptions { timeout_ms: contract.ready_timeout_ms },
    }
}

/// The check's next step after `event` ended the action of `stage`.
pub fn recovery_step(contract: &Contract, stage: RecoveryStage, event: RecoveryEvent) -> (s: RecoveryStep)
    requires
        expected_event(stage, event),
    ensures
        step_view(s) == transition(*contract, stage, event),
{
    let proxy = contract.proxy_name.clone();
    match event {
        RecoveryEvent::Failed(err) => {
            return match stage {
                RecoveryStage::DisableProxy => end_inconclusive(concat2("fault_not_applied: ", err.as_str())),
                RecoveryStage::EnableProxy => end_inconclusive(concat2("fault_release_failed: ", err.as_str())),
                _ => end_inconclusive(err),
            };
        },
        _ => {},
    }
    match stage {
        RecoveryStage::AwaitObserver => {
            match event {
                RecoveryEvent::Satisfied => RecoveryStep {
                    next: RecoveryStage::PublishInitial,
                    records: one_record(record("observer_ready", None, "reported and status SUBACK received")),
                    action: RecoveryAction::PublishDesired {
                        revision: 1,
                        value: contract.initial_value.clone(),
                        timeout_ms: contract.ready_timeout_ms,
                        clear_report: false,
                    },
                },
                _ => end_inconclusive(to_owned("observer_not_ready")),
            }
        },
        RecoveryStage::PublishInitial => RecoveryStep {
            next: RecoveryStage::AwaitInitialReport,
            records: no_records(),
            action: RecoveryAction::AwaitReport {
                revision: 1,
                value: contract.initial_value.clone(),
                timeout_ms: contract.ready_timeout_ms,
            },
        },
        RecoveryStage::AwaitInitialReport => {
            match event {
                RecoveryEvent::Satisfied => {
                    let a = record("initial_ready", None, "SUT reported initial revision 1");
                    let b = record("fault_requested", Some(proxy), "disable SUT-only TCP proxy");
                    let ghost av = record_view(a);
                    let ghost bv = record_view(b);
                    let records = vec![a, b];
                    assert(records@.map_values(|x: RecordEntry| record_view(x)) =~= seq![av, bv]);
                    RecoveryStep {
                        next: RecoveryStage::DisableProxy,
                        records,
                        action: RecoveryAction::SetProxy { enabled: false, clear_status: true },
                    }
                },
                _ => end_inconclusive(to_owned("initial_report_missing")),
            }
        },
        RecoveryStage::DisableProxy => RecoveryStep {
            next: RecoveryStage::ConfirmBlocked,
            records: one_record(record("fault_applied", Some(proxy), "proxy disabled and GET confirmed")),
            action: RecoveryAction::CheckBlocked,
        },
        RecoveryStage::ConfirmBlocked => {
            match event {
                RecoveryEvent::Observed(true) => RecoveryStep {
                    next: RecoveryStage::AwaitOffline,
                    records: no_records(),
                    action: RecoveryAction::AwaitOffline { timeout_ms: contract.fault_timeout_ms },
                },
                _ => end_inconclusive(to_owned("fault_not_applied: proxy_still_accepts_connections")),
            }
        },
        RecoveryStage::AwaitOffline => {
            match event {
                RecoveryEvent::Satisfied => RecoveryStep {
                    next: RecoveryStage::PublishLatest,
                    records: one_record(
                        record(
                            "fault_affected_sut",
                            None,
                            "broker emitted SUT offline will; proxy rejects new TCP connections",
                        ),
                    ),
                    action: RecoveryAction::PublishDesired {
                        revision: 2,
                        value: contract.latest_value.clone(),
                        timeout_ms: contract.fault_timeout_ms,
                        clear_report: true,
                    },
                },
                _ => end_inconclusive(to_owned("fault_not_affected: sut_disconnect_not_observed")),
            }
        },
        RecoveryStage::PublishLatest => RecoveryStep {
            next: RecoveryStage::EnableProxy,
            records: no_records(),
            action: RecoveryAction::SetProxy { enabled: true, clear_status: false },
        },
        RecoveryStage::EnableProxy => RecoveryStep {
            next: RecoveryStage::ProbePath,
            records: no_records(),
            action: RecoveryAction::ProbePath { recovery_timeout_ms: contract.recovery_timeout_ms },
        },
        RecoveryStage::ProbePath => {
            match event {
                RecoveryEvent::Satisfied => RecoveryStep {
                    next: RecoveryStage::AwaitLatestReport,
                    records: one_record(
                        record(
                            "fault_released",
                            Some(proxy),
                            "proxy enabled and GET confirmed; MQTT CONNACK through proxy confirmed",
                        ),
                    ),
                    action: RecoveryAction::AwaitLatestReport,
                },
                _ => end_inconclusive(to_owned("fault_release_failed: MQTT path unavailable")),
            }
        },
        RecoveryStage::AwaitLatestReport => {
            match event {
                RecoveryEvent::Report { value, text } => {
                    let revision = match value_get(&value, "revision") {
                        Some(r) => r.as_u64(),
                        None => None,
                    };
                    if revision == Some(2u64) {
                        if !matches_report(&value, 2, contract.latest_value.as_str()) {
                            return end_failed("wrong_latest_value");
                        }
                        let entry = RecordEntry { event_type: to_owned("latest_reached"), target: None, message: text };
                        RecoveryStep {
                            next: RecoveryStage::HoldStable,
                            records: one_record(entry),
                            action: RecoveryAction::HoldStable { stability_ms: contract.stability_ms },
                        }
                    } else {
                        let entry = RecordEntry { event_type: to_owned("stale_report"), target: None, message: text };
                        RecoveryStep {
                            next: RecoveryStage::AwaitLatestReport,
                            records: one_record(entry),
                            action: RecoveryAction::AwaitLatestReport,
                        }
                    }
                },
                _ => end_failed("missing_latest_report"),
            }
        },
        RecoveryStage::HoldStable => {
            match event {
                RecoveryEvent::Report { value, .. } => {
                    if !matches_report(&value, 2, contract.latest_value.as_str()) {
                        return end_failed("rollback_observed");
                    }
                    RecoveryStep {
                        next: RecoveryStage::HoldStable,
                        records: no_records(),
                        action: RecoveryAction::HoldStable { stability_ms: contract.stability_ms },
                    }
                },
                _ => RecoveryStep {
                    next: RecoveryStage::Finished,
                    records: no_records(),
                    action: RecoveryAction::Finish(Outcome::Passed),
                },
            }
        },
        RecoveryStage::Finished => end_inconclusive(String::new()),
    }
}

/// The outcome once the proxy has been restored after the check: a failed
/// restore makes the outcome inconclusive and names both reasons. Returns
/// the milestone to record too.
pub fn after_cleanup(outcome: Outcome, cleanup: Result<(), String>) -> (r: (Outcome, RecordEntry))
    ensures
        match cleanup {
            Ok(()) => r.0.spec_verdict() == outcome.spec_verdict() && r.0.spec_reason()
                == outcome.spec_reason() && record_view(r.1) == rec(
                "proxy_cleanup"@,
                None,
                "proxy enabled"@,
            ),
            Err(e) => r.0.spec_verdict() == "inconclusive"@ && r.0.spec_reason()
                == outcome.spec_reason() + "; proxy_cleanup_failed: "@ + e@ && record_view(r.1)
                == rec("proxy_cleanup_failed"@, None, e@),
        },
{
    match cleanup {
        Ok(()) => (outcome, record("proxy_cleanup", None, "proxy enabled")),
        Err(error) => {
            let mut reason = outcome.reason();
            crate::text::push_str(&mut reason, "; proxy_cleanup_failed: ");
            crate::text::push_str(&mut reason, error.as_str());
            let entry = RecordEntry {
                event_type: to_owned("proxy_cleanup_failed"),
                target: None,
                message: error,
            };
            (Outcome::Inconclusive(reason), entry)
        },
    }
}

/// The expected report of a revision: `{"revision": n, "value": v}`.
pub open spec fn expected_report(revision: int, value: Seq<char>) -> ValueView {
    ValueView::Mapping(
        seq![
            (ValueView::Str("revision"@), ValueView::Int(revision)),
            (ValueView::Str("value"@), ValueView::Str(value)),
        ],
    )
}

/// The device state an external check reports: what was last observed,
/// what was expected (when the observer ran) and the verdict.
pub open spec fn external_state(
    c: Contract,
    observer_ran: bool,
    last_seen: Option<ValueView>,
    verdict: Seq<char>,
) -> Map<Seq<char>, ValueView> {
    let observed = if observer_ran {
        let base = match last_seen {
            Some(v) => Map::<Seq<char>, ValueView>::empty().insert("observed_report"@, v),
            None => Map::<Seq<char>, ValueView>::empty(),
        };
        base.insert("expected_initial"@, expected_report(1, c.initial_value@)).insert(
            "expected_latest"@,
            expected_report(2, c.latest_value@),
        )
    } else {
        Map::<Seq<char>, ValueView>::empty()
    };
    observed.insert("verdict"@, ValueView::Str(verdict))
}

fn expected_report_value(revision: i64, value: &String) -> (v: Value)
    ensures
        v@ == expected_report(revision as int, value@),
{
    let v = Value::Mapping(
        vec![
            (Value::Str(to_owned("revision")), Value::Int(revision)),
            (Value::Str(to_owned("value")), Value::Str(value.clone())),
        ],
    );
    assert(v@ =~= expected_report(revision as int, value@)) by {
        match v {
            Value::Mapping(es) => {
                crate::value::lemma_view_entries(es@);
                assert(crate::value::view_entries(es@) =~= seq![
                    (ValueView::Str("revision"@), ValueView::Int(revision as int)),
                    (ValueView::Str("value"@), ValueView::Str(value@)),
                ]);
            },
            _ => {},
        }
    }
    v
}

/// The report of an external recovery check: the observed timeline with
/// the verdict appended at `verdict_at`, one assertion on the latest
/// desired state, and the device's reported state.
pub fn external_run_report(
    contract: &Contract,
    run_id: &str,
    generated_by: String,
    timeline: Vec<TimelineEvent>,
    verdict_at: String,
    observer_ran: bool,
    last_seen: Option<Value>,
    outcome: &Outcome,
) -> (r: RunReport)
    ensures
        r.schema_version@ == "roomci.report.v1"@,
        r.run_id@ == run_id@,
        r.generated_by@ == generated_by@,
        r.scenario_name@ == contract.scenario@,
        r.result == (if outcome is Passed {
            RunResult::Passed
        } else {
            RunResult::Failed
        }),
        timeline_view(r.timeline@) == timeline_view(timeline@).push(
            EventView {
                at: verdict_at@,
                event_type: "verdict"@,
                target: None,
                message: outcome.spec_reason(),
            },
        ),
        r.assertions@.len() == 1,
        result_view(r.assertions@[0]) == (ResultView {
            name: "latest_desired_state_after_recovery"@,
            assertion_type: "external_mqtt_recovery"@,
            passed: outcome is Passed,
            message: outcome.spec_reason(),
            impact_level: None,
            impact_message: None,
            reference_id: Some("external_mqtt_recovery"@),
        }),
        nested_value_views(r.final_state@) == Map::<Seq<char>, Map<Seq<char>, ValueView>>::empty().insert(
            contract.device_id@,
            external_state(
                *contract,
                observer_ran,
                match last_seen {
                    Some(v) => Some(v@),
                    None => None,
                },
                outcome.spec_verdict(),
            ),
        ),
        r.retained_messages@.len() == 0,
{
    let reason = outcome.reason();
    let mut timeline = timeline;
    let ghost before = timeline_view(timeline@);
    let ghost rv = reason@;
    let ghost av = verdict_at@;
    timeline.push(
        TimelineEvent { at: verdict_at, event_type: to_owned("verdict"), target: None, message: reason.clone() },
    );
    assert(timeline_view(timeline@) =~= before.push(
        EventView { at: av, event_type: "verdict"@, target: None, message: rv },
    ));
    let ghost seen = match &last_seen {
        Some(v) => Some(v@),
        None => None,
    };
    let mut state: StrMap<Value> = StrMap::new();
    if observer_ran {
        match last_seen {
            Some(v) => {
                state.insert(to_owned("observed_report"), v);
            },
            None => {},
        }
        state.insert(to_owned("expected_initial"), expected_report_value(1, &contract.initial_value));
        state.insert(to_owned("expected_latest"), expected_report_value(2, &contract.latest_value));
    }
    state.insert(to_owned("verdict"), Value::Str(to_owned(outcome.verdict())));
    assert(value_views(state@) =~= external_state(*contract, observer_ran, seen, outcome.spec_verdict()));
    let passed = match outcome {
        Outcome::Passed => true,
        _ => false,
    };
    let mut final_state: StrMap<StrMap<Value>> = StrMap::new();
    let ghost sv = value_views(state@);
    final_state.insert(contract.device_id.clone(), state);
    assert(nested_value_views(final_state@) =~= Map::<Seq<char>, Map<Seq<char>, ValueView>>::empty().insert(
        contract.device_id@,
        sv,
    ));
    let assertion = AssertionResult {
        name: to_owned("latest_desired_state_after_recovery"),
        assertion_type: to_owned("external_mqtt_recovery"),
        passed,
        message: reason,
        impact_level: None,
        impact_message: None,
        reference_id: Some(to_owned("external_mqtt_recovery")),
    };
    let retained: StrMap<StrMap<Value>> = StrMap::new();
    RunReport {
        schema_version: to_owned("roomci.report.v1"),
        run_id: to_owned(run_id),
        generated_by,
        scenario_name: contract.scenario.clone(),
        result: if passed {
            RunResult::Passed
        } else {
            RunResult::Failed
        },
        timeline,
        assertions: vec![assertion],
        final_state,
        retained_messages: retained,
    }
}

// ---------------------------------------------------------------------------
// What the observer sees
// ---------------------------------------------------------------------------

/// What the observer has seen of the system under test: the topics it
/// watches, the last report (taken by the check) and the last one seen,
/// the last status, and the broker acknowledgements so far.
#[derive(Debug)]
pub struct ObserverState {
    pub run_id: String,
    pub device_id: String,
    pub reported_topic: String,
    pub status_topic: String,
    pub last_report: Option<Value>,
    pub last_seen: Option<Value>,
    pub status: Option<String>,
    pub pubacks: u64,
    pub subacks: u64,
}

/// The topic prefix of a run's device: `roomci/<run_id>/<device_id>`.
pub open spec fn run_prefix(run_id: Seq<char>, device_id: Seq<char>) -> Seq<char> {
    "roomci/"@ + run_id + "/"@ + device_id
}

/// The topic a desired value is published on: `<prefix>/desired`.
pub fn desired_topic(run_id: &str, device_id: &str) -> (t: String)
    ensures
        t@ == run_prefix(run_id@, device_id@) + "/desired"@,
{
    let mut t = concat2("roomci/", run_id);
    crate::text::push_str(&mut t, "/");
    crate::text::push_str(&mut t, device_id);
    crate::text::push_str(&mut t, "/desired");
    t
}

/// The JSON text of a desired value, keys in ascending order.
pub open spec fn desired_json(run_id: Seq<char>, device_id: Seq<char>, revision: u64, value: Seq<char>) -> Seq<
    char,
> {
    "{\"device_id\":"@ + json_string(device_id) + ",\"revision\":"@ + decimal(revision as nat)
        + ",\"run_id\":"@ + json_string(run_id) + ",\"value\":"@ + json_string(value) + "}"@
}

/// The payload that publishes `value` as the desired state of `revision`,
/// tagged with the run and the device.
pub fn desired_payload(run_id: &str, device_id: &str, revision: u64, value: &str) -> (p: String)
    ensures
        p@ == desired_json(run_id@, device_id@, revision, value@),
{
    let mut p = to_owned("{\"device_id\":");
    push_str(&mut p, json_quote(device_id).as_str());
    push_str(&mut p, ",\"revision\":");
    push_str(&mut p, u64_to_string(revision).as_str());
    push_str(&mut p, ",\"run_id\":");
    push_str(&mut p, json_quote(run_id).as_str());
    push_str(&mut p, ",\"value\":");
    push_str(&mut p, json_quote(value).as_str());
    push_str(&mut p, "}");
    p
}

/// Whether a payload comes from this run and device.
pub open spec fn from_run(v: ValueView, run_id: Seq<char>, device_id: Seq<char>) -> bool {
    (match view_get(v, "run_id"@) {
        Some(x) => view_str(x) == Some(run_id),
        None => false,
    }) && match view_get(v, "device_id"@) {
        Some(x) => view_str(x) == Some(device_id),
        None => false,
    }
}

pub open spec fn opt_view(o: Option<Value>) -> Option<ValueView> {
    match o {
        Some(v) => Some(v@),
        None => None,
    }
}

fn from_run_of(v: &Value, run_id: &str, device_id: &str) -> (b: bool)
    ensures
        b == from_run(v@, run_id@, device_id@),
{
    let run_ok = match value_get(v, "run_id") {
        Some(x) => match x.as_str() {
            Some(s) => crate::text::str_eq(s.as_str(), run_id),
            None => false,
        },
        None => false,
    };
    let device_ok = match value_get(v, "device_id") {
        Some(x) => match x.as_str() {
            Some(s) => crate::text::str_eq(s.as_str(), device_id),
            None => false,
        },
        None => false,
    };
    run_ok && device_ok
}

pub open spec fn opt_record(r: Option<RecordEntry>) -> Option<RecordView> {
    match r {
        Some(e) => Some(record_view(e)),
        None => None,
    }
}

/// What a published message does to the observer: its last report, last
/// seen report, last status, and the milestone recorded.
pub open spec fn observation(
    report: Option<ValueView>,
    seen: Option<ValueView>,
    status: Option<Seq<char>>,
    run_id: Seq<char>,
    device_id: Seq<char>,
    reported_topic: Seq<char>,
    status_topic: Seq<char>,
    topic: Seq<char>,
    retain: bool,
    payload: Option<ValueView>,
    text: Seq<char>,
) -> (Option<ValueView>, Option<ValueView>, Option<Seq<char>>, Option<RecordView>) {
    let ours = payload matches Some(v) && from_run(v, run_id, device_id);
    if topic == reported_topic {
        if retain {
            (
                report,
                seen,
                status,
                Some(
                    rec(
                        "ignored_retained_report"@,
                        Some(topic),
                        "preexisting retained report cannot prove SUT activity"@,
                    ),
                ),
            )
        } else if ours {
            (payload, payload, status, Some(rec("sut_reported"@, Some(topic), text)))
        } else {
            (
                report,
                seen,
                status,
                Some(rec("ignored_report"@, Some(topic), "invalid payload or mismatched run/device"@)),
            )
        }
    } else if topic == status_topic {
        if ours {
            match view_get(payload->Some_0, "status"@) {
                Some(x) => match view_str(x) {
                    Some(st) => (report, seen, Some(st), Some(rec("sut_status"@, Some(topic), st))),
                    None => (report, seen, status, None),
                },
                None => (report, seen, status, None),
            }
        } else {
            (report, seen, status, Some(rec("ignored_status"@, Some(topic), "mismatched run/device"@)))
        }
    } else {
        (report, seen, status, None)
    }
}

impl ObserverState {
    /// An observer of `device_id` in run `run_id`, watching its `reported`
    /// and `status` topics.
    pub fn new(run_id: &str, device_id: &str) -> (o: Self)
        ensures
            o.run_id@ == run_id@,
            o.device_id@ == device_id@,
            o.reported_topic@ == run_prefix(run_id@, device_id@) + "/reported"@,
            o.status_topic@ == run_prefix(run_id@, device_id@) + "/status"@,
            o.last_report is None,
            o.last_seen is None,
            o.status is None,
            o.pubacks == 0,
            o.subacks == 0,
    {
        let mut prefix = concat2("roomci/", run_id);
        crate::text::push_str(&mut prefix, "/");
        crate::text::push_str(&mut prefix, device_id);
        let reported = concat2(prefix.as_str(), "/reported");
        let status = concat2(prefix.as_str(), "/status");
        ObserverState {
            run_id: to_owned(run_id),
            device_id: to_owned(device_id),
            reported_topic: reported,
            status_topic: status,
            last_report: None,
            last_seen: None,
            status: None,
            pubacks: 0,
            subacks: 0,
        }
    }

    /// Takes in a message published on a watched topic. `payload` is the
    /// message parsed as JSON (`None` when it is not JSON) and `text` its
    /// JSON rendering. A retained report is ignored, since it cannot show
    /// the system under test acting; a report or status from another run
    /// or device is ignored too. Returns the milestone to record, if any.
    pub fn observe_publish(&mut self, topic: &str, retain: bool, payload: Option<Value>, text: String) -> (r:
        Option<RecordEntry>)
        ensures
            final(self).run_id == old(self).run_id,
            final(self).device_id == old(self).device_id,
            final(self).reported_topic == old(self).reported_topic,
            final(self).status_topic == old(self).status_topic,
            final(self).pubacks == old(self).pubacks,
            final(self).subacks == old(self).subacks,
            (opt_view(final(self).last_report), opt_view(final(self).last_seen), opt_chars(
                final(self).status,
            ), opt_record(r)) == observation(
                opt_view(old(self).last_report),
                opt_view(old(self).last_seen),
                opt_chars(old(self).status),
                old(self).run_id@,
                old(self).device_id@,
                old(self).reported_topic@,
                old(self).status_topic@,
                topic@,
                retain,
                opt_view(payload),
                text@,
            ),
    {
        if crate::text::str_eq(topic, self.reported_topic.as_str()) {
            if retain {
                return Some(
                    record(
                        "ignored_retained_report",
                        Some(to_owned(topic)),
                        "preexisting retained report cannot prove SUT activity",
                    ),
                );
            }
            match payload {
                Some(v) => {
                    if from_run_of(&v, self.run_id.as_str(), self.device_id.as_str()) {
                        let seen = v.deep_clone();
                        self.last_seen = Some(seen);
                        self.last_report = Some(v);
                        return Some(
                            RecordEntry {
                                event_type: to_owned("sut_reported"),
                                target: Some(to_owned(topic)),
                                message: text,
                            },
                        );
                    }
                },
                None => {},
            }
            return Some(
                record("ignored_report", Some(to_owned(topic)), "invalid payload or mismatched run/device"),
            );
        }
        if crate::text::str_eq(topic, self.status_topic.as_str()) {
            match &payload {
                Some(v) => {
                    if from_run_of(v, self.run_id.as_str(), self.device_id.as_str()) {
                        return match value_get(v, "status") {
                            Some(x) => match x.as_str() {
                                Some(st) => {
                                    self.status = Some(st.clone());
                                    Some(
                                        RecordEntry {
                                            event_type: to_owned("sut_status"),
                                            target: Some(to_owned(topic)),
                                            message: st.clone(),
                                        },
                                    )
                                },
                                None => None,
                            },
                            None => None,
                        };
                    }
                },
                None => {},
            }
            return Some(record("ignored_status", Some(to_owned(topic)), "mismatched run/device"));
        }
        None
    }
}

/// The text a JSON object holds under `key`.
pub open spec fn text_of_key(v: ValueView, key: Seq<char>) -> Option<Seq<char>> {
    match view_get(v, key) {
        Some(x) => view_str(x),
        None => None,
    }
}

/// Whether the proxy API describes the proxy of the system under test in
/// the requested state: its name, its enabled flag, a listen address on
/// the proxy port, and the broker as its upstream.
pub open spec fn proxy_confirms(c: Contract, v: ValueView, enabled: bool) -> bool {
    &&& text_of_key(v, "name"@) == Some(c.proxy_name@)
    &&& (match view_get(v, "enabled"@) {
        Some(x) => crate::value::view_bool(x) == Some(enabled),
        None => false,
    })
    &&& (match text_of_key(v, "listen"@) {
        Some(l) => crate::text::has_suffix(l, ":"@ + decimal(c.proxy_port as nat)),
        None => false,
    })
    &&& text_of_key(v, "upstream"@) == Some(c.broker_host@ + ":"@ + decimal(c.broker_port as nat))
}

fn text_key<'a>(v: &'a Value, key: &str) -> (r: Option<&'a String>)
    ensures
        match r {
            Some(s) => text_of_key(v@, key@) == Some(s@),
            None => text_of_key(v@, key@) is None,
        },
{
    match value_get(v, key) {
        Some(x) => x.as_str(),
        None => None,
    }
}

/// Whether one proxy API answer confirms the requested state.
pub fn proxy_confirmed(contract: &Contract, value: &Value, enabled: bool) -> (b: bool)
    ensures
        b == proxy_confirms(*contract, value@, enabled),
{
    let name_ok = match text_key(value, "name") {
        Some(n) => crate::text::str_eq(n.as_str(), contract.proxy_name.as_str()),
        None => false,
    };
    let enabled_ok = match value_get(value, "enabled") {
        Some(x) => match x.as_bool() {
            Some(e) => e == enabled,
            None => false,
        },
        None => false,
    };
    let port = concat2(":", u64_to_string(contract.proxy_port as u64).as_str());
    let listen_ok = match text_key(value, "listen") {
        Some(l) => crate::text::ends_with(&crate::text::chars_of(l.as_str()), &crate::text::chars_of(port.as_str())),
        None => false,
    };
    let mut upstream = contract.broker_host.clone();
    push_str(&mut upstream, ":");
    push_str(&mut upstream, u64_to_string(contract.broker_port as u64).as_str());
    let upstream_ok = match text_key(value, "upstream") {
        Some(u) => crate::text::str_eq(u.as_str(), upstream.as_str()),
        None => false,
    };
    name_ok && enabled_ok && listen_ok && upstream_ok
}

/// The CONNECT packet that probes the MQTT path through the proxy: MQTT
/// 3.1.1, clean session, keep-alive 5 s, client id `client`.
pub open spec fn probe_connect_bytes(client: Seq<u8>) -> Seq<u8> {
    seq![
        0x10u8,
        (12 + client.len()) as u8,
        0u8,
        4u8,
        0x4du8,
        0x51u8,
        0x54u8,
        0x54u8,
        4u8,
        2u8,
        0u8,
        5u8,
        (client.len() / 256) as u8,
        (client.len() % 256) as u8,
    ] + client
}

/// The probe's client id: `roomci-probe-<run_id>`.
pub open spec fn probe_client_id(run_id: Seq<char>) -> Seq<char> {
    "roomci-probe-"@ + run_id
}

/// Builds the probe's CONNECT packet for a run.
pub fn probe_connect_packet(run_id: &str) -> (r: Vec<u8>)
    requires
        vstd::utf8::encode_utf8(probe_client_id(run_id@)).len() <= 115,
    ensures
        r@ == probe_connect_bytes(vstd::utf8::encode_utf8(probe_client_id(run_id@))),
{
    let client = concat2("roomci-probe-", run_id);
    let bytes = client.as_str().as_bytes();
    let n = bytes.len();
    let mut r: Vec<u8> = vec![0x10u8, (12 + n) as u8, 0u8, 4u8, 0x4du8, 0x51u8, 0x54u8, 0x54u8, 4u8, 2u8, 0u8, 5u8, (n / 256) as u8, (n % 256) as u8];
    let ghost head = r@;
    let mut i: usize = 0;
    while i < n
        invariant
            i <= n,
            n == bytes@.len(),
            r@ == head + bytes@.take(i as int),
        decreases n - i,
    {
        r.push(bytes[i]);
        assert(r@ =~= head + bytes@.take(i + 1));
        i = i + 1;
    }
    assert(bytes@.take(n as int) =~= bytes@);
    assert(head =~= seq![
        0x10u8,
        (12 + n) as u8,
        0u8,
        4u8,
        0x4du8,
        0x51u8,
        0x54u8,
        0x54u8,
        4u8,
        2u8,
        0u8,
        5u8,
        (n / 256) as u8,
        (n % 256) as u8,
    ]);
    r
}

/// Whether a reply to the probe is an accepting CONNACK.
pub fn probe_accepted(reply: &[u8]) -> (b: bool)
    ensures
        b == (reply@ == seq![0x20u8, 0x02u8, 0x00u8, 0x00u8]),
{
    if reply.len() != 4 {
        return false;
    }
    let ok = reply[0] == 0x20 && reply[1] == 0x02 && reply[2] == 0 && reply[3] == 0;
    if ok {
        assert(reply@ =~= seq![0x20u8, 0x02u8, 0x00u8, 0x00u8]);
    }
    ok
}

} // verus!

//! The state of the serve runtime between requests: the latest run report
//! and what external controllers reported since the last run (faults, BMS
//! contacts, MQTT publishes, Modbus registers), with the rules for showing
//! that overlay in reports and for folding it into the next run. Also the
//! routing of HTTP requests to endpoints.

use vstd::prelude::*;

use crate::modbus::ModbusModel;
use crate::modbus_tcp::{apply_modbus_tcp_request, request_outcome, ModbusReply, ModbusTcpRequest};
use crate::constraint::{kind_matches, kind_matches_exec};
use crate::mqtt_contract::{
    field_type_name, verdict_at, verdict_table, verdict_views, verdicts_for, MqttConnectionContract,
};
use crate::report::{clone_opt, opt_chars, AssertionResult, RunReport, RunResult, TimelineEvent};
use crate::runtime::{event_view, result_view, timeline_view, EventView, ResultView};
use crate::serve::{
    message_char, mqtt_topic_matches_filter, sanitize_external_key, sanitize_external_message_value, sanitized_key,
    topic_matches_filter,
};
use crate::strmap::{
    clone_nested_values, clone_values, nested_value_views, overlay_values, sorted_keys, value_views, with_prefix,
    StrMap,
};
use crate::text::{
    chars_of, concat2, decimal, find_seq, first_occurrence, has_prefix, has_suffix, join, join_seq, lex_lt, push_str,
    str_eq, string_from_subrange, string_texts, to_owned, u64_to_string, usize_to_string,
};
use crate::value::{value_get, view_get, view_str, Value, ValueView};

verus! {

// ---------------------------------------------------------------------------
// Copies
// ---------------------------------------------------------------------------

/// A copy of a timeline event.
pub fn clone_event(e: &TimelineEvent) -> (r: TimelineEvent)
    ensures
        event_view(r) == event_view(*e),
{
    TimelineEvent { at: e.at.clone(), event_type: e.event_type.clone(), target: clone_opt(&e.target), message: e.message.clone() }
}

/// A copy of a timeline.
pub fn clone_timeline(t: &Vec<TimelineEvent>) -> (r: Vec<TimelineEvent>)
    ensures
        timeline_view(r@) == timeline_view(t@),
{
    let mut r: Vec<TimelineEvent> = Vec::new();
    let mut i: usize = 0;
    while i < t.len()
        invariant
            i <= t.len(),
            timeline_view(r@) == timeline_view(t@).take(i as int),
        decreases t.len() - i,
    {
        let ghost before = timeline_view(r@);
        r.push(clone_event(&t[i]));
        assert(timeline_view(r@) =~= before.push(event_view(t@[i as int])));
        assert(timeline_view(t@).take(i + 1) =~= timeline_view(t@).take(i as int).push(event_view(t@[i as int])));
        i = i + 1;
    }
    assert(timeline_view(t@).take(t.len() as int) =~= timeline_view(t@));
    r
}

/// Appends copies of `more` to `timeline`.
fn append_events(timeline: &mut Vec<TimelineEvent>, more: &Vec<TimelineEvent>)
    ensures
        timeline_view(final(timeline)@) == timeline_view(old(timeline)@) + timeline_view(more@),
{
    let ghost start = timeline_view(timeline@);
    let mut i: usize = 0;
    while i < more.len()
        invariant
            i <= more.len(),
            timeline_view(timeline@) == start + timeline_view(more@).take(i as int),
        decreases more.len() - i,
    {
        let ghost before = timeline_view(timeline@);
        timeline.push(clone_event(&more[i]));
        assert(timeline_view(timeline@) =~= before.push(event_view(more@[i as int])));
        assert(timeline_view(more@).take(i + 1) =~= timeline_view(more@).take(i as int).push(
            event_view(more@[i as int]),
        ));
        i = i + 1;
    }
    assert(timeline_view(more@).take(more.len() as int) =~= timeline_view(more@));
}

pub open spec fn results_view(s: Seq<AssertionResult>) -> Seq<ResultView> {
    s.map_values(|a: AssertionResult| result_view(a))
}

fn clone_result(a: &AssertionResult) -> (r: AssertionResult)
    ensures
        result_view(r) == result_view(*a),
{
    AssertionResult {
        name: a.name.clone(),
        assertion_type: a.assertion_type.clone(),
        passed: a.passed,
        message: a.message.clone(),
        impact_level: clone_opt(&a.impact_level),
        impact_message: clone_opt(&a.impact_message),
        reference_id: clone_opt(&a.reference_id),
    }
}

/// Whether two reports hold the same text, results, events and states.
pub open spec fn same_report(a: RunReport, b: RunReport) -> bool {
    &&& a.schema_version@ == b.schema_version@
    &&& a.run_id@ == b.run_id@
    &&& a.generated_by@ == b.generated_by@
    &&& a.scenario_name@ == b.scenario_name@
    &&& a.result == b.result
    &&& timeline_view(a.timeline@) == timeline_view(b.timeline@)
    &&& results_view(a.assertions@) == results_view(b.assertions@)
    &&& nested_value_views(a.final_state@) == nested_value_views(b.final_state@)
    &&& nested_value_views(a.retained_messages@) == nested_value_views(b.retained_messages@)
}

/// A copy of a report.
pub fn clone_report(report: &RunReport) -> (r: RunReport)
    ensures
        same_report(r, *report),
{
    let mut assertions: Vec<AssertionResult> = Vec::new();
    let mut i: usize = 0;
    while i < report.assertions.len()
        invariant
            i <= report.assertions.len(),
            results_view(assertions@) == results_view(report.assertions@).take(i as int),
        decreases report.assertions.len() - i,
    {
        let ghost before = results_view(assertions@);
        assertions.push(clone_result(&report.assertions[i]));
        assert(results_view(assertions@) =~= before.push(result_view(report.assertions@[i as int])));
        assert(results_view(report.assertions@).take(i + 1) =~= results_view(report.assertions@).take(
            i as int,
        ).push(result_view(report.assertions@[i as int])));
        i = i + 1;
    }
    assert(results_view(report.assertions@).take(report.assertions.len() as int) =~= results_view(
        report.assertions@,
    ));
    RunReport {
        schema_version: report.schema_version.clone(),
        run_id: report.run_id.clone(),
        generated_by: report.generated_by.clone(),
        scenario_name: report.scenario_name.clone(),
        result: report.result,
        timeline: clone_timeline(&report.timeline),
        assertions,
        final_state: clone_nested_values(&report.final_state),
        retained_messages: clone_nested_values(&report.retained_messages),
    }
}

/// Copies every entry of `overlay` into `target`, replacing entries with the
/// same key.
fn overlay_all(target: &mut StrMap<StrMap<Value>>, overlay: &StrMap<StrMap<Value>>)
    ensures
        nested_value_views(final(target)@) == nested_value_views(old(target)@).union_prefer_right(
            nested_value_views(overlay@),
        ),
{
    overlay_values(target, "", overlay);
    proof {
        reveal_strlit("");
        let m = nested_value_views(overlay@);
        let e = ""@;
        assert(e =~= Seq::<char>::empty());
        assert forall|k: Seq<char>| #[trigger] with_prefix(m, e).contains_key(k) <==> m.contains_key(k) by {
            assert(k.subrange(0, 0) =~= e);
            assert(k.subrange(0, k.len() as int) =~= k);
        }
        assert forall|k: Seq<char>| #[trigger] with_prefix(m, e).contains_key(k) implies with_prefix(m, e)[k] == m[k] by {
            assert(k.subrange(0, k.len() as int) =~= k);
        }
        assert(with_prefix(m, e) =~= m);
    }
}

// ---------------------------------------------------------------------------
// The state
// ---------------------------------------------------------------------------

/// The serve runtime's state.
pub struct ServeState {
    pub latest_report: RunReport,
    pub injected_faults: Vec<Value>,
    pub external_publish_count: u64,
    pub run_in_progress: bool,
    pub has_completed_run: bool,
    /// Events observed from outside since the last run; shown after the
    /// report's own events and appended to the next run's report.
    pub external_observation_timeline: Vec<TimelineEvent>,
    /// BMS contact observations by sanitized source; shown under the
    /// `external.bms.` prefix.
    pub external_observations: StrMap<StrMap<Value>>,
    /// Device states set by external MQTT publishes.
    pub external_mqtt_final_state: StrMap<StrMap<Value>>,
    /// Retained payloads set by external MQTT publishes, by state topic.
    pub external_mqtt_retained_state: StrMap<StrMap<Value>>,
    pub modbus: ModbusModel,
    pub modbus_units: Vec<(u8, String)>,
    /// Registers external Modbus clients read or wrote.
    pub external_modbus_registers: StrMap<StrMap<Value>>,
    /// The replay ids of the BMS contact events accepted so far.
    pub accepted_replay_ids: Vec<String>,
}

/// The prefix under which BMS observations appear in the final state.
pub open spec fn bms_prefix() -> Seq<char> {
    "external.bms."@
}

/// What `/health` reports: `running` during a run, `idle` before the first
/// completed run, else the latest result.
pub open spec fn health_text(running: bool, completed: bool, result: RunResult) -> Seq<char> {
    if running {
        "running"@
    } else if !completed {
        "idle"@
    } else {
        match result {
            RunResult::Passed => "passed"@,
            RunResult::Failed => "failed"@,
        }
    }
}

/// The HTTP status of a health report: 503 when the latest run failed.
pub fn health_status_code(status: &str) -> (code: u16)
    ensures
        code == (if status@ == "failed"@ {
            503u16
        } else {
            200u16
        }),
{
    if str_eq(status, "failed") {
        503
    } else {
        200
    }
}

pub open spec fn sanitized_message(raw: Seq<char>) -> Seq<char> {
    raw.map_values(|c: char| message_char(c))
}

/// An event on the overlay timeline.
pub open spec fn overlay_event(at: Seq<char>, event_type: Seq<char>, target: Option<Seq<char>>, message: Seq<char>) -> EventView {
    EventView { at, event_type, target, message }
}

/// The registers' record key: `modbus.<device>.<register>`.
pub open spec fn register_key(device: Seq<char>, register: u32) -> Seq<char> {
    "modbus."@ + device + "."@ + decimal(register as nat)
}

/// What is recorded of a register: its device, number and value, and its
/// readable value when there is one.
pub open spec fn register_record(device: Seq<char>, register: u32, value: ValueView, readable_bits: Option<u64>) -> Map<
    Seq<char>,
    ValueView,
> {
    let base = Map::<Seq<char>, ValueView>::empty().insert("device"@, ValueView::Str(device)).insert(
        "register"@,
        ValueView::Int(register as int),
    ).insert("value"@, value);
    match readable_bits {
        Some(b) => base.insert("readable_value"@, ValueView::Float(b)),
        None => base,
    }
}

/// Why a BMS contact payload was refused.
#[derive(Debug, Clone, Copy, PartialEq, Eq, Structural)]
pub enum BmsContactError {
    MissingSource,
    MissingState,
    InvalidSeverity,
    InvalidSchemaVersion,
    DuplicateReplayId,
}

impl BmsContactError {
    /// The error code of the response.
    pub fn code(&self) -> (s: &'static str)
        ensures
            s@ == (match self {
                BmsContactError::MissingSource => "missing_source"@,
                BmsContactError::MissingState => "missing_state"@,
                BmsContactError::InvalidSeverity => "invalid_severity"@,
                BmsContactError::InvalidSchemaVersion => "invalid_schema_version"@,
                BmsContactError::DuplicateReplayId => "duplicate_replay_id"@,
            }),
    {
        match self {
            BmsContactError::MissingSource => "missing_source",
            BmsContactError::MissingState => "missing_state",
            BmsContactError::InvalidSeverity => "invalid_severity",
            BmsContactError::InvalidSchemaVersion => "invalid_schema_version",
            BmsContactError::DuplicateReplayId => "duplicate_replay_id",
        }
    }

    /// The message of the response.
    pub fn message(&self) -> (s: &'static str)
        ensures
            s@ == (match self {
                BmsContactError::MissingSource => "external BMS contact payload must include string field source"@,
                BmsContactError::MissingState => "external BMS contact payload must include string field state"@,
                BmsContactError::InvalidSeverity => "external BMS contact severity must be info, warning or critical"@,
                BmsContactError::InvalidSchemaVersion => "external BMS contact schema_version must be bms.alert.v1"@,
                BmsContactError::DuplicateReplayId => "external BMS contact replay_id was already accepted"@,
            }),
    {
        match self {
            BmsContactError::MissingSource => "external BMS contact payload must include string field source",
            BmsContactError::MissingState => "external BMS contact payload must include string field state",
            BmsContactError::InvalidSeverity => "external BMS contact severity must be info, warning or critical",
            BmsContactError::InvalidSchemaVersion => "external BMS contact schema_version must be bms.alert.v1",
            BmsContactError::DuplicateReplayId => "external BMS contact replay_id was already accepted",
        }
    }

    /// The HTTP status of the response: 409 for a replayed event, else 400.
    pub fn status(&self) -> (code: u16)
        ensures
            code == (if *self == BmsContactError::DuplicateReplayId {
                409u16
            } else {
                400u16
            }),
    {
        match self {
            BmsContactError::DuplicateReplayId => 409,
            _ => 400,
        }
    }
}

/// The text field of a payload.
pub open spec fn text_field(v: ValueView, key: Seq<char>) -> Option<Seq<char>> {
    match view_get(v, key) {
        Some(x) => view_str(x),
        None => None,
    }
}

/// The observation recorded for a BMS contact.
pub open spec fn contact_record(state: Seq<char>, severity: Option<Seq<char>>) -> Map<Seq<char>, ValueView> {
    let base = Map::<Seq<char>, ValueView>::empty().insert("state"@, ValueView::Str(sanitized_key(state)));
    match severity {
        Some(s) => base.insert("severity"@, ValueView::Str(sanitized_key(s))),
        None => base,
    }
}

/// A severity, when given, is one of `info`, `warning` and `critical`.
pub open spec fn severity_ok(v: ValueView) -> bool {
    match view_get(v, "severity"@) {
        None => true,
        Some(x) => x == ValueView::Str("info"@) || x == ValueView::Str("warning"@) || x == ValueView::Str(
            "critical"@,
        ),
    }
}

/// A schema version, when given, is `bms.alert.v1`.
pub open spec fn schema_ok(v: ValueView) -> bool {
    match view_get(v, "schema_version"@) {
        None => true,
        Some(x) => x == ValueView::Str("bms.alert.v1"@),
    }
}

/// Why a BMS contact payload is refused, given the replay ids accepted so
/// far; `None` when it is accepted.
pub open spec fn bms_contact_problem(v: ValueView, seen: Seq<Seq<char>>) -> Option<BmsContactError> {
    if text_field(v, "source"@) is None {
        Some(BmsContactError::MissingSource)
    } else if text_field(v, "state"@) is None {
        Some(BmsContactError::MissingState)
    } else if !severity_ok(v) {
        Some(BmsContactError::InvalidSeverity)
    } else if !schema_ok(v) {
        Some(BmsContactError::InvalidSchemaVersion)
    } else {
        match text_field(v, "replay_id"@) {
            Some(id) => if seen.contains(id) {
                Some(BmsContactError::DuplicateReplayId)
            } else {
                None
            },
            None => None,
        }
    }
}

fn contains_text_item(items: &Vec<String>, x: &str) -> (b: bool)
    ensures
        b == string_texts(items@).contains(x@),
{
    let mut i: usize = 0;
    while i < items.len()
        invariant
            i <= items.len(),
            forall|j: int| 0 <= j < i ==> items@[j]@ != x@,
        decreases items.len() - i,
    {
        if str_eq(items[i].as_str(), x) {
            assert(string_texts(items@)[i as int] == x@);
            return true;
        }
        i = i + 1;
    }
    proof {
        if string_texts(items@).contains(x@) {
            let j = choose|j: int| 0 <= j < string_texts(items@).len() && string_texts(items@)[j] == x@;
            assert(items@[j]@ == x@);
        }
    }
    false
}

fn text_of(v: &Value, key: &str) -> (r: Option<String>)
    ensures
        opt_chars(r) == text_field(v@, key@),
{
    match value_get(v, key) {
        Some(x) => match x.as_str() {
            Some(s) => Some(s.clone()),
            None => None,
        },
        None => None,
    }
}

impl ServeState {
    /// The state before any request: the initial report, no overlay, no
    /// completed run.
    pub fn new(latest_report: RunReport, modbus: ModbusModel, modbus_units: Vec<(u8, String)>) -> (s: Self)
        ensures
            s.latest_report == latest_report,
            s.modbus == modbus,
            s.modbus_units == modbus_units,
            s.injected_faults@.len() == 0,
            s.external_publish_count == 0,
            !s.run_in_progress,
            !s.has_completed_run,
            s.external_observation_timeline@.len() == 0,
            s.external_observations@ == Map::<Seq<char>, StrMap<Value>>::empty(),
            s.external_mqtt_final_state@ == Map::<Seq<char>, StrMap<Value>>::empty(),
            s.external_mqtt_retained_state@ == Map::<Seq<char>, StrMap<Value>>::empty(),
            s.external_modbus_registers@ == Map::<Seq<char>, StrMap<Value>>::empty(),
            s.accepted_replay_ids@.len() == 0,
    {
        ServeState {
            latest_report,
            injected_faults: Vec::new(),
            external_publish_count: 0,
            run_in_progress: false,
            has_completed_run: false,
            external_observation_timeline: Vec::new(),
            external_observations: StrMap::new(),
            external_mqtt_final_state: StrMap::new(),
            external_mqtt_retained_state: StrMap::new(),
            modbus,
            modbus_units,
            external_modbus_registers: StrMap::new(),
            accepted_replay_ids: Vec::new(),
        }
    }

    /// What `/health` reports.
    pub fn health_status(&self) -> (s: &'static str)
        ensures
            s@ == health_text(self.run_in_progress, self.has_completed_run, self.latest_report.result),
    {
        if self.run_in_progress {
            return "running";
        }
        if !self.has_completed_run {
            return "idle";
        }
        match self.latest_report.result {
            RunResult::Passed => "passed",
            RunResult::Failed => "failed",
        }
    }

    /// The device states shown: the report's, with external MQTT updates
    /// over them.
    pub fn final_state_view(&self) -> (r: StrMap<StrMap<Value>>)
        ensures
            nested_value_views(r@) == nested_value_views(self.latest_report.final_state@).union_prefer_right(
                nested_value_views(self.external_mqtt_final_state@),
            ),
    {
        let mut r = clone_nested_values(&self.latest_report.final_state);
        overlay_all(&mut r, &self.external_mqtt_final_state);
        r
    }

    /// The retained messages shown: the report's, with external MQTT
    /// updates over them.
    pub fn retained_messages_view(&self) -> (r: StrMap<StrMap<Value>>)
        ensures
            nested_value_views(r@) == nested_value_views(self.latest_report.retained_messages@).union_prefer_right(
                nested_value_views(self.external_mqtt_retained_state@),
            ),
    {
        let mut r = clone_nested_values(&self.latest_report.retained_messages);
        overlay_all(&mut r, &self.external_mqtt_retained_state);
        r
    }

    /// The report that `/timeline` and `/reports/latest.*` render: the
    /// latest report with the overlay events after its own, the shown
    /// device states, then the BMS observations under their prefix, then
    /// the Modbus registers, and the shown retained messages.
    pub fn rendered_report_view(&self) -> (r: RunReport)
        ensures
            r.schema_version@ == self.latest_report.schema_version@,
            r.run_id@ == self.latest_report.run_id@,
            r.generated_by@ == self.latest_report.generated_by@,
            r.scenario_name@ == self.latest_report.scenario_name@,
            r.result == self.latest_report.result,
            results_view(r.assertions@) == results_view(self.latest_report.assertions@),
            timeline_view(r.timeline@) == timeline_view(self.latest_report.timeline@) + timeline_view(
                self.external_observation_timeline@,
            ),
            nested_value_views(r.final_state@) == nested_value_views(self.latest_report.final_state@).union_prefer_right(
                nested_value_views(self.external_mqtt_final_state@),
            ).union_prefer_right(with_prefix(nested_value_views(self.external_observations@), bms_prefix())).union_prefer_right(
                nested_value_views(self.external_modbus_registers@),
            ),
            nested_value_views(r.retained_messages@) == nested_value_views(
                self.latest_report.retained_messages@,
            ).union_prefer_right(nested_value_views(self.external_mqtt_retained_state@)),
    {
        let mut report = clone_report(&self.latest_report);
        append_events(&mut report.timeline, &self.external_observation_timeline);
        let mut final_state = self.final_state_view();
        overlay_values(&mut final_state, "external.bms.", &self.external_observations);
        overlay_all(&mut final_state, &self.external_modbus_registers);
        report.final_state = final_state;
        report.retained_messages = self.retained_messages_view();
        report
    }

    /// Folds the overlay into a fresh report at the end of a run: the
    /// overlay events after the report's, the BMS observations under their
    /// prefix, the device states and registers over the final state, the
    /// retained messages over the report's; the overlay is left empty.
    pub fn drain_external_overlay_into(&mut self, report: &mut RunReport)
        ensures
            timeline_view(final(report).timeline@) == timeline_view(old(report).timeline@) + timeline_view(
                old(self).external_observation_timeline@,
            ),
            nested_value_views(final(report).final_state@) == nested_value_views(old(report).final_state@).union_prefer_right(
                with_prefix(nested_value_views(old(self).external_observations@), bms_prefix()),
            ).union_prefer_right(nested_value_views(old(self).external_mqtt_final_state@)).union_prefer_right(
                nested_value_views(old(self).external_modbus_registers@),
            ),
            nested_value_views(final(report).retained_messages@) == nested_value_views(
                old(report).retained_messages@,
            ).union_prefer_right(nested_value_views(old(self).external_mqtt_retained_state@)),
            final(report).schema_version == old(report).schema_version,
            final(report).run_id == old(report).run_id,
            final(report).generated_by == old(report).generated_by,
            final(report).scenario_name == old(report).scenario_name,
            final(report).result == old(report).result,
            final(report).assertions == old(report).assertions,
            final(self).external_observation_timeline@.len() == 0,
            final(self).external_observations@ == Map::<Seq<char>, StrMap<Value>>::empty(),
            final(self).external_mqtt_final_state@ == Map::<Seq<char>, StrMap<Value>>::empty(),
            final(self).external_mqtt_retained_state@ == Map::<Seq<char>, StrMap<Value>>::empty(),
            final(self).external_modbus_registers@ == Map::<Seq<char>, StrMap<Value>>::empty(),
            final(self).latest_report == old(self).latest_report,
            final(self).injected_faults == old(self).injected_faults,
            final(self).external_publish_count == old(self).external_publish_count,
            final(self).run_in_progress == old(self).run_in_progress,
            final(self).has_completed_run == old(self).has_completed_run,
            final(self).modbus == old(self).modbus,
            final(self).modbus_units == old(self).modbus_units,
            final(self).accepted_replay_ids == old(self).accepted_replay_ids,
    {
        append_events(&mut report.timeline, &self.external_observation_timeline);
        overlay_values(&mut report.final_state, "external.bms.", &self.external_observations);
        overlay_all(&mut report.final_state, &self.external_mqtt_final_state);
        overlay_all(&mut report.retained_messages, &self.external_mqtt_retained_state);
        overlay_all(&mut report.final_state, &self.external_modbus_registers);
        self.external_observation_timeline = Vec::new();
        self.external_observations = StrMap::new();
        self.external_mqtt_final_state = StrMap::new();
        self.external_mqtt_retained_state = StrMap::new();
        self.external_modbus_registers = StrMap::new();
    }
}

/// The piece of `value` that stands where `placeholder` is in `template`:
/// the template is split at the placeholder's first occurrence, and the
/// value must carry the same text before and after a non-empty piece
/// without `/`.
pub open spec fn placeholder_piece(template: Seq<char>, value: Seq<char>, placeholder: Seq<char>) -> Option<
    Seq<char>,
> {
    match first_occurrence(template, placeholder) {
        None => None,
        Some(i) => {
            let prefix = template.subrange(0, i);
            let suffix = template.subrange(i + placeholder.len(), template.len() as int);
            if !has_prefix(value, prefix) {
                None
            } else {
                let rest = value.subrange(prefix.len() as int, value.len() as int);
                if !has_suffix(rest, suffix) {
                    None
                } else {
                    let piece = rest.subrange(0, rest.len() - suffix.len());
                    if piece.len() == 0 || piece.contains('/') {
                        None
                    } else {
                        Some(piece)
                    }
                }
            }
        },
    }
}

/// Extracts the piece of `value` that stands where `placeholder` is in
/// `template`.
pub fn extract_placeholder_value(template: &str, value: &str, placeholder: &str) -> (r: Option<String>)
    ensures
        opt_chars(r) == placeholder_piece(template@, value@, placeholder@),
{
    let t = chars_of(template);
    let v = chars_of(value);
    let p = chars_of(placeholder);
    proof {
        crate::text::lemma_find_from(t@, p@, 0);
    }
    let i = match find_seq(&t, &p) {
        Some(i) => i,
        None => {
            return None;
        },
    };
    assert(crate::text::occurs_at(t@, p@, i as int));
    assert(i + p@.len() <= t@.len());
    assert(i as int + p.len() as int <= t.len() as int);
    let suffix_start = i + p.len();
    let prefix = chars_of(string_from_subrange(&t, 0, i).as_str());
    let suffix = chars_of(string_from_subrange(&t, suffix_start, t.len()).as_str());
    if !crate::text::starts_with(&v, &prefix) {
        return None;
    }
    let rest = chars_of(string_from_subrange(&v, prefix.len(), v.len()).as_str());
    if !crate::text::ends_with(&rest, &suffix) {
        return None;
    }
    let piece = string_from_subrange(&rest, 0, rest.len() - suffix.len());
    let piece_chars = chars_of(piece.as_str());
    if piece_chars.len() == 0 || crate::text::seq_contains_char(&piece_chars, '/') {
        return None;
    }
    Some(piece)
}

/// How a publish topic matches a contract: the device id taken from the
/// command topic, and the state topic with the device id in place.
pub open spec fn publish_match(command_topic: Seq<char>, state_topic: Seq<char>, topic: Seq<char>) -> Option<
    (Seq<char>, Seq<char>),
> {
    match placeholder_piece(command_topic, topic, "{device_id}"@) {
        None => None,
        Some(d) => Some((d, crate::checks::replace_all(state_topic, "{device_id}"@, d))),
    }
}

/// Matches one contract against a publish topic: the device id and the
/// state topic.
pub fn match_contract(contract: &MqttConnectionContract, topic: &str) -> (r: Option<(String, String)>)
    ensures
        match r {
            Some((d, st)) => publish_match(contract.command_topic@, contract.state_topic@, topic@) == Some(
                (d@, st@),
            ),
            None => publish_match(contract.command_topic@, contract.state_topic@, topic@) is None,
        },
{
    let device_id = match extract_placeholder_value(contract.command_topic.as_str(), topic, "{device_id}") {
        Some(d) => d,
        None => {
            return None;
        },
    };
    proof {
        reveal_strlit("{device_id}");
    }
    let state_topic = crate::checks::replace_text(contract.state_topic.as_str(), "{device_id}", device_id.as_str());
    Some((device_id, state_topic))
}

/// The first contract a publish topic matches: its index, the device id
/// and the state topic.
pub open spec fn first_publish_match(contracts: Seq<MqttConnectionContract>, topic: Seq<char>) -> Option<
    (int, Seq<char>, Seq<char>),
>
    decreases contracts.len(),
{
    if contracts.len() == 0 {
        None
    } else {
        match first_publish_match(contracts.drop_last(), topic) {
            Some(m) => Some(m),
            None => match publish_match(contracts.last().command_topic@, contracts.last().state_topic@, topic) {
                Some((d, st)) => Some((contracts.len() - 1, d, st)),
                None => None,
            },
        }
    }
}

/// The required fields a payload lacks, in order.
pub open spec fn absent_fields(required: Seq<Seq<char>>, present: Set<Seq<char>>) -> Seq<Seq<char>>
    decreases required.len(),
{
    if required.len() == 0 {
        Seq::empty()
    } else {
        absent_fields(required.drop_last(), present) + if present.contains(required.last()) {
            Seq::<Seq<char>>::empty()
        } else {
            seq![required.last()]
        }
    }
}

/// What is wrong with the payload's value of the `j`-th declared field of a
/// contract: a value of the wrong kind, else the caller's verdict on its
/// enum and range (those compare numbers as floats). An absent field is
/// not checked.
pub open spec fn field_value_problem(
    c: MqttConnectionContract,
    payload: Map<Seq<char>, ValueView>,
    verdicts: Seq<Option<Seq<char>>>,
    j: int,
) -> Option<Seq<char>> {
    let k = c.payload.fields.key_seq()[j];
    if !payload.contains_key(k) {
        None
    } else if !kind_matches(payload[k], c.payload.fields@[k].field_type) {
        Some("expected "@ + field_type_name(c.payload.fields@[k].field_type))
    } else {
        verdict_at(verdicts, j)
    }
}

/// The first of the first `n` declared fields, in key order, whose payload
/// value is invalid, with the reason.
pub open spec fn first_field_problem(
    c: MqttConnectionContract,
    payload: Map<Seq<char>, ValueView>,
    verdicts: Seq<Option<Seq<char>>>,
    n: int,
) -> Option<(Seq<char>, Seq<char>)>
    decreases n,
{
    if n <= 0 {
        None
    } else {
        match first_field_problem(c, payload, verdicts, n - 1) {
            Some(x) => Some(x),
            None => match field_value_problem(c, payload, verdicts, n - 1) {
                Some(r) => Some((c.payload.fields.key_seq()[n - 1], r)),
                None => None,
            },
        }
    }
}

/// Once a field problem is found, later fields do not change it.
proof fn lemma_first_field_problem_stable(
    c: MqttConnectionContract,
    payload: Map<Seq<char>, ValueView>,
    verdicts: Seq<Option<Seq<char>>>,
    m: int,
    n: int,
)
    requires
        0 <= m <= n,
        first_field_problem(c, payload, verdicts, m) is Some,
    ensures
        first_field_problem(c, payload, verdicts, n) == first_field_problem(c, payload, verdicts, m),
    decreases n - m,
{
    if n > m {
        lemma_first_field_problem_stable(c, payload, verdicts, m, n - 1);
    }
}

/// The first declared field of `contract` whose value in `payload` is
/// invalid, with the reason; `verdicts[j]` is the caller's outcome of the
/// enum and range checks of the `j`-th field.
fn first_invalid_field(
    contract: &MqttConnectionContract,
    payload: &StrMap<Value>,
    verdicts: &Vec<Option<String>>,
) -> (r: Option<(String, String)>)
    ensures
        match r {
            Some((f, reason)) => first_field_problem(
                *contract,
                value_views(payload@),
                verdict_views(verdicts@),
                contract.payload.fields.key_seq().len() as int,
            ) == Some((f@, reason@)),
            None => first_field_problem(
                *contract,
                value_views(payload@),
                verdict_views(verdicts@),
                contract.payload.fields.key_seq().len() as int,
            ) is None,
        },
{
    let fields = &contract.payload.fields;
    let ghost pv = value_views(payload@);
    let ghost vs = verdict_views(verdicts@);
    proof {
        use_type_invariant(fields);
        fields.lemma_wf();
    }
    let n = fields.len();
    let mut j: usize = 0;
    while j < n
        invariant
            j <= n,
            n == fields.key_seq().len(),
            n == fields.entry_seq().len(),
            pv == value_views(payload@),
            vs == verdict_views(verdicts@),
            fields == &contract.payload.fields,
            forall|i: int|
                0 <= i < fields.entry_seq().len() ==> fields@.contains_key(
                    #[trigger] fields.entry_seq()[i].0,
                ) && fields@[fields.entry_seq()[i].0] == fields.entry_seq()[i].1,
            first_field_problem(*contract, pv, vs, j as int) is None,
        decreases n - j,
    {
        let key = fields.key_at(j);
        let constraint = fields.value_at(j);
        assert(fields.key_seq()[j as int] == fields.entry_seq()[j as int].0);
        let problem: Option<String> = match payload.get(key.as_str()) {
            None => None,
            Some(v) => {
                if !kind_matches_exec(v, constraint.field_type) {
                    Some(concat2("expected ", constraint.field_type.as_str()))
                } else if j < verdicts.len() {
                    match &verdicts[j] {
                        Some(reason) => Some(reason.clone()),
                        None => None,
                    }
                } else {
                    None
                }
            },
        };
        assert(problem matches Some(p) ==> field_value_problem(*contract, pv, vs, j as int) == Some(p@));
        assert(problem is None ==> field_value_problem(*contract, pv, vs, j as int) is None);
        if let Some(reason) = problem {
            proof {
                lemma_first_field_problem_stable(*contract, pv, vs, j + 1, n as int);
            }
            return Some((key.clone(), reason));
        }
        j = j + 1;
    }
    None
}

fn missing_fields(required: &Vec<String>, payload: &StrMap<Value>) -> (r: Vec<String>)
    ensures
        string_texts(r@) == absent_fields(string_texts(required@), payload@.dom()),
{
    let ghost all = string_texts(required@);
    let mut r: Vec<String> = Vec::new();
    let mut i: usize = 0;
    assert(all.take(0) =~= Seq::<Seq<char>>::empty());
    while i < required.len()
        invariant
            i <= required.len(),
            all == string_texts(required@),
            string_texts(r@) == absent_fields(all.take(i as int), payload@.dom()),
        decreases required.len() - i,
    {
        assert(all.take(i + 1).drop_last() =~= all.take(i as int));
        assert(all.take(i + 1).last() == required@[i as int]@);
        let ghost before = string_texts(r@);
        if !payload.contains_key(required[i].as_str()) {
            r.push(required[i].clone());
            assert(string_texts(r@) =~= before + seq![required@[i as int]@]);
        } else {
            assert(before + Seq::<Seq<char>>::empty() =~= before);
        }
        i = i + 1;
    }
    assert(all.take(required.len() as int) =~= all);
    r
}

/// The HTTP endpoints of the serve runtime.
#[derive(Debug, Clone, Copy, PartialEq, Eq, Structural)]
pub enum Route {
    Health,
    Scenario,
    State,
    Timeline,
    Fault,
    BmsContact,
    Finish,
    Run,
    ReportJson,
    ReportMarkdown,
    ReportJunit,
    NotFound,
}

/// A request path without its query.
pub open spec fn path_part(path: Seq<char>) -> Seq<char> {
    match first_occurrence(path, "?"@) {
        Some(i) => path.subrange(0, i),
        None => path,
    }
}

pub open spec fn route_of(method: Seq<char>, path: Seq<char>) -> Route {
    let p = path_part(path);
    if method == "GET"@ && p == "/health"@ {
        Route::Health
    } else if method == "GET"@ && p == "/scenario"@ {
        Route::Scenario
    } else if method == "GET"@ && p == "/state"@ {
        Route::State
    } else if method == "GET"@ && p == "/timeline"@ {
        Route::Timeline
    } else if method == "POST"@ && p == "/fault"@ {
        Route::Fault
    } else if method == "POST"@ && p == "/external/bms/contact"@ {
        Route::BmsContact
    } else if method == "POST"@ && p == "/finish"@ {
        Route::Finish
    } else if method == "POST"@ && p == "/run"@ {
        Route::Run
    } else if method == "GET"@ && (p == "/reports/latest"@ || p == "/reports/latest.json"@) {
        Route::ReportJson
    } else if method == "GET"@ && p == "/reports/latest.md"@ {
        Route::ReportMarkdown
    } else if method == "GET"@ && p == "/reports/latest.junit.xml"@ {
        Route::ReportJunit
    } else {
        Route::NotFound
    }
}

/// The path of a request without its query: the text before the first `?`.
pub fn path_without_query(path: &str) -> (r: String)
    ensures
        r@ == path_part(path@),
{
    let chars = chars_of(path);
    let q = chars_of("?");
    match find_seq(&chars, &q) {
        Some(i) => {
            proof {
                crate::text::lemma_find_from(chars@, q@, 0);
            }
            assert(i <= chars.len()) by {
                reveal_strlit("?");
            }
            string_from_subrange(&chars, 0, i)
        },
        None => to_owned(path),
    }
}

/// The endpoint a request goes to.
pub fn route(method: &str, path: &str) -> (r: Route)
    ensures
        r == route_of(method@, path@),
{
    let p = path_without_query(path);
    let get = str_eq(method, "GET");
    let post = str_eq(method, "POST");
    let ps = p.as_str();
    if get && str_eq(ps, "/health") {
        Route::Health
    } else if get && str_eq(ps, "/scenario") {
        Route::Scenario
    } else if get && str_eq(ps, "/state") {
        Route::State
    } else if get && str_eq(ps, "/timeline") {
        Route::Timeline
    } else if post && str_eq(ps, "/fault") {
        Route::Fault
    } else if post && str_eq(ps, "/external/bms/contact") {
        Route::BmsContact
    } else if post && str_eq(ps, "/finish") {
        Route::Finish
    } else if post && str_eq(ps, "/run") {
        Route::Run
    } else if get && (str_eq(ps, "/reports/latest") || str_eq(ps, "/reports/latest.json")) {
        Route::ReportJson
    } else if get && str_eq(ps, "/reports/latest.md") {
        Route::ReportMarkdown
    } else if get && str_eq(ps, "/reports/latest.junit.xml") {
        Route::ReportJunit
    } else {
        Route::NotFound
    }
}

impl ServeState {
    /// Accepts an injected fault: it is kept, and an event names its target
    /// (when it has a text one) and its JSON text `summary`, both with
    /// control characters blanked.
    pub fn record_fault(&mut self, fault: Value, summary: &str)
        ensures
            final(self).injected_faults@ == old(self).injected_faults@.push(fault),
            timeline_view(final(self).external_observation_timeline@) == timeline_view(
                old(self).external_observation_timeline@,
            ).push(
                overlay_event(
                    "external#fault"@ + decimal((old(self).injected_faults@.len() + 1) as nat),
                    "external_fault_injected"@,
                    match text_field(fault@, "target"@) {
                        Some(t) => Some(sanitized_message(t)),
                        None => None,
                    },
                    "external fault accepted: "@ + sanitized_message(summary@),
                ),
            ),
            final(self).latest_report == old(self).latest_report,
            final(self).external_publish_count == old(self).external_publish_count,
            final(self).run_in_progress == old(self).run_in_progress,
            final(self).has_completed_run == old(self).has_completed_run,
            final(self).external_observations == old(self).external_observations,
            final(self).external_mqtt_final_state == old(self).external_mqtt_final_state,
            final(self).external_mqtt_retained_state == old(self).external_mqtt_retained_state,
            final(self).external_modbus_registers == old(self).external_modbus_registers,
            final(self).modbus == old(self).modbus,
            final(self).modbus_units == old(self).modbus_units,
            final(self).accepted_replay_ids == old(self).accepted_replay_ids,
    {
        let target = match text_of(&fault, "target") {
            Some(t) => Some(sanitize_external_message_value(t.as_str())),
            None => None,
        };
        self.injected_faults.push(fault);
        let index = self.injected_faults.len();
        let at = concat2("external#fault", usize_to_string(index).as_str());
        let message = concat2("external fault accepted: ", sanitize_external_message_value(summary).as_str());
        let ghost before = timeline_view(self.external_observation_timeline@);
        let event = TimelineEvent { at, event_type: to_owned("external_fault_injected"), target, message };
        let ghost ev = event_view(event);
        self.external_observation_timeline.push(event);
        assert(timeline_view(self.external_observation_timeline@) =~= before.push(ev));
    }

    /// Takes in a BMS contact event. A payload needs text `source` and
    /// `state`; a `severity`, when given, must be `info`, `warning` or
    /// `critical`, a `schema_version` must be `bms.alert.v1`, and a text
    /// `replay_id` must not have been accepted before. A refused payload
    /// changes nothing. An accepted one is recorded under the sanitized
    /// source (with its sanitized severity), noted on the timeline, and its
    /// replay id remembered; the sanitized source and state are returned.
    pub fn record_bms_contact(&mut self, contact: &Value) -> (r: Result<(String, String), BmsContactError>)
        requires
            old(self).external_observation_timeline@.len() < usize::MAX,
        ensures
            match bms_contact_problem(contact@, string_texts(old(self).accepted_replay_ids@)) {
                Some(e) => r == Err::<(String, String), BmsContactError>(e) && *final(self) == *old(self),
                None => {
                    let source = text_field(contact@, "source"@)->Some_0;
                    let state = text_field(contact@, "state"@)->Some_0;
                    &&& r matches Ok((s, st)) && s@ == sanitized_key(source) && st@ == sanitized_key(state)
                    &&& nested_value_views(final(self).external_observations@) == nested_value_views(
                        old(self).external_observations@,
                    ).insert(sanitized_key(source), contact_record(state, text_field(contact@, "severity"@)))
                    &&& timeline_view(final(self).external_observation_timeline@) == timeline_view(
                        old(self).external_observation_timeline@,
                    ).push(
                        overlay_event(
                            "external#bms"@ + decimal((old(self).external_observation_timeline@.len() + 1) as nat),
                            "external_bms_contact_observed"@,
                            Some(sanitized_key(source)),
                            "external BMS/contact event observed: "@ + sanitized_message(source) + "="@
                                + sanitized_message(state),
                        ),
                    )
                    &&& string_texts(final(self).accepted_replay_ids@) == match text_field(contact@, "replay_id"@) {
                        Some(id) => string_texts(old(self).accepted_replay_ids@).push(id),
                        None => string_texts(old(self).accepted_replay_ids@),
                    }
                    &&& final(self).latest_report == old(self).latest_report
                    &&& final(self).injected_faults == old(self).injected_faults
                    &&& final(self).external_publish_count == old(self).external_publish_count
                    &&& final(self).run_in_progress == old(self).run_in_progress
                    &&& final(self).has_completed_run == old(self).has_completed_run
                    &&& final(self).external_mqtt_final_state == old(self).external_mqtt_final_state
                    &&& final(self).external_mqtt_retained_state == old(self).external_mqtt_retained_state
                    &&& final(self).external_modbus_registers == old(self).external_modbus_registers
                    &&& final(self).modbus == old(self).modbus
                    &&& final(self).modbus_units == old(self).modbus_units
                },
            },
    {
        let source = match text_of(contact, "source") {
            Some(s) => s,
            None => {
                return Err(BmsContactError::MissingSource);
            },
        };
        let state = match text_of(contact, "state") {
            Some(s) => s,
            None => {
                return Err(BmsContactError::MissingState);
            },
        };
        match value_get(contact, "severity") {
            Some(x) => {
                let ok = match x.as_str() {
                    Some(t) => str_eq(t.as_str(), "info") || str_eq(t.as_str(), "warning") || str_eq(
                        t.as_str(),
                        "critical",
                    ),
                    None => false,
                };
                if !ok {
                    return Err(BmsContactError::InvalidSeverity);
                }
            },
            None => {},
        }
        match value_get(contact, "schema_version") {
            Some(x) => {
                let ok = match x.as_str() {
                    Some(t) => str_eq(t.as_str(), "bms.alert.v1"),
                    None => false,
                };
                if !ok {
                    return Err(BmsContactError::InvalidSchemaVersion);
                }
            },
            None => {},
        }
        let replay_id = text_of(contact, "replay_id");
        match &replay_id {
            Some(id) => {
                if contains_text_item(&self.accepted_replay_ids, id.as_str()) {
                    return Err(BmsContactError::DuplicateReplayId);
                }
            },
            None => {},
        }
        let clean_source = sanitize_external_key(source.as_str());
        let clean_state = sanitize_external_key(state.as_str());
        let mut record: StrMap<Value> = StrMap::new();
        record.insert(to_owned("state"), Value::Str(clean_state.clone()));
        match text_of(contact, "severity") {
            Some(severity) => {
                record.insert(to_owned("severity"), Value::Str(sanitize_external_key(severity.as_str())));
            },
            None => {},
        }
        let ghost rv = value_views(record@);
        assert(rv =~= contact_record(state@, text_field(contact@, "severity"@)));
        let ghost obs_before = nested_value_views(self.external_observations@);
        self.external_observations.insert(clean_source.clone(), record);
        assert(nested_value_views(self.external_observations@) =~= obs_before.insert(clean_source@, rv));
        let index = self.external_observation_timeline.len() + 1;
        let at = concat2("external#bms", usize_to_string(index).as_str());
        let mut message = concat2(
            "external BMS/contact event observed: ",
            sanitize_external_message_value(source.as_str()).as_str(),
        );
        push_str(&mut message, "=");
        push_str(&mut message, sanitize_external_message_value(state.as_str()).as_str());
        let ghost before = timeline_view(self.external_observation_timeline@);
        let event = TimelineEvent {
            at,
            event_type: to_owned("external_bms_contact_observed"),
            target: Some(clean_source.clone()),
            message,
        };
        let ghost ev = event_view(event);
        self.external_observation_timeline.push(event);
        assert(timeline_view(self.external_observation_timeline@) =~= before.push(ev));
        match replay_id {
            Some(id) => {
                let ghost ids = string_texts(self.accepted_replay_ids@);
                self.accepted_replay_ids.push(id);
                assert(string_texts(self.accepted_replay_ids@) =~= ids.push(text_field(contact@, "replay_id"@)->Some_0));
            },
            None => {},
        }
        Ok((clean_source, clean_state))
    }

    /// Starts a run unless one is in progress; returns whether it started.
    pub fn begin_run(&mut self) -> (started: bool)
        ensures
            started == !old(self).run_in_progress,
            final(self).run_in_progress,
            final(self).latest_report == old(self).latest_report,
            final(self).injected_faults == old(self).injected_faults,
            final(self).external_publish_count == old(self).external_publish_count,
            final(self).has_completed_run == old(self).has_completed_run,
            final(self).external_observation_timeline == old(self).external_observation_timeline,
            final(self).external_observations == old(self).external_observations,
            final(self).external_mqtt_final_state == old(self).external_mqtt_final_state,
            final(self).external_mqtt_retained_state == old(self).external_mqtt_retained_state,
            final(self).external_modbus_registers == old(self).external_modbus_registers,
            final(self).modbus == old(self).modbus,
            final(self).modbus_units == old(self).modbus_units,
            final(self).accepted_replay_ids == old(self).accepted_replay_ids,
    {
        if self.run_in_progress {
            return false;
        }
        self.run_in_progress = true;
        true
    }

    /// Ends a run that failed: nothing else changes.
    pub fn abort_run(&mut self)
        ensures
            !final(self).run_in_progress,
            final(self).latest_report == old(self).latest_report,
            final(self).injected_faults == old(self).injected_faults,
            final(self).external_publish_count == old(self).external_publish_count,
            final(self).has_completed_run == old(self).has_completed_run,
            final(self).external_observation_timeline == old(self).external_observation_timeline,
            final(self).external_observations == old(self).external_observations,
            final(self).external_mqtt_final_state == old(self).external_mqtt_final_state,
            final(self).external_mqtt_retained_state == old(self).external_mqtt_retained_state,
            final(self).external_modbus_registers == old(self).external_modbus_registers,
            final(self).modbus == old(self).modbus,
            final(self).modbus_units == old(self).modbus_units,
            final(self).accepted_replay_ids == old(self).accepted_replay_ids,
    {
        self.run_in_progress = false;
    }

    /// Ends a run that produced `report`: the overlay is folded into it and
    /// it becomes the latest report; injected faults and the publish count
    /// start over. Returns the run's result.
    pub fn complete_run(&mut self, report: RunReport) -> (result: RunResult)
        ensures
            result == report.result,
            !final(self).run_in_progress,
            final(self).has_completed_run,
            final(self).injected_faults@.len() == 0,
            final(self).external_publish_count == 0,
            final(self).latest_report.result == report.result,
            final(self).latest_report.assertions == report.assertions,
            timeline_view(final(self).latest_report.timeline@) == timeline_view(report.timeline@) + timeline_view(
                old(self).external_observation_timeline@,
            ),
            nested_value_views(final(self).latest_report.final_state@) == nested_value_views(report.final_state@).union_prefer_right(
                with_prefix(nested_value_views(old(self).external_observations@), bms_prefix()),
            ).union_prefer_right(nested_value_views(old(self).external_mqtt_final_state@)).union_prefer_right(
                nested_value_views(old(self).external_modbus_registers@),
            ),
            nested_value_views(final(self).latest_report.retained_messages@) == nested_value_views(
                report.retained_messages@,
            ).union_prefer_right(nested_value_views(old(self).external_mqtt_retained_state@)),
            final(self).external_observation_timeline@.len() == 0,
            final(self).external_observations@ == Map::<Seq<char>, StrMap<Value>>::empty(),
            final(self).external_mqtt_final_state@ == Map::<Seq<char>, StrMap<Value>>::empty(),
            final(self).external_mqtt_retained_state@ == Map::<Seq<char>, StrMap<Value>>::empty(),
            final(self).external_modbus_registers@ == Map::<Seq<char>, StrMap<Value>>::empty(),
            final(self).modbus == old(self).modbus,
            final(self).modbus_units == old(self).modbus_units,
            final(self).accepted_replay_ids == old(self).accepted_replay_ids,
    {
        let mut report = report;
        let result = report.result;
        self.run_in_progress = false;
        self.drain_external_overlay_into(&mut report);
        self.latest_report = report;
        self.injected_faults = Vec::new();
        self.external_publish_count = 0;
        self.has_completed_run = true;
        result
    }

    /// `/finish`: marks a run as completed; returns the latest result and
    /// the number of external publishes.
    pub fn finish(&mut self) -> (r: (RunResult, u64))
        ensures
            r == (old(self).latest_report.result, old(self).external_publish_count),
            final(self).has_completed_run,
            final(self).latest_report == old(self).latest_report,
            final(self).injected_faults == old(self).injected_faults,
            final(self).external_publish_count == old(self).external_publish_count,
            final(self).run_in_progress == old(self).run_in_progress,
            final(self).external_observation_timeline == old(self).external_observation_timeline,
            final(self).external_observations == old(self).external_observations,
            final(self).external_mqtt_final_state == old(self).external_mqtt_final_state,
            final(self).external_mqtt_retained_state == old(self).external_mqtt_retained_state,
            final(self).external_modbus_registers == old(self).external_modbus_registers,
            final(self).modbus == old(self).modbus,
            final(self).modbus_units == old(self).modbus_units,
            final(self).accepted_replay_ids == old(self).accepted_replay_ids,
    {
        self.has_completed_run = true;
        (self.latest_report.result, self.external_publish_count)
    }

    /// Takes in a publish from an external MQTT client. It is counted; a
    /// topic that matches no contract, a payload that lacks required fields
    /// of the first contract it matches, or one with a field value that
    /// breaks that contract's field constraints, is refused with an event;
    /// else the payload becomes the device's state and the retained message
    /// at the state topic, with an event. `value_verdicts[i][j]` is the
    /// caller's outcome of the enum and range checks (which compare numbers
    /// as floats) of the payload's value of the `j`-th declared field of
    /// contract `i`.
    pub fn apply_external_mqtt_publish(
        &mut self,
        contracts: &Vec<MqttConnectionContract>,
        topic: &str,
        payload: StrMap<Value>,
        value_verdicts: &Vec<Vec<Option<String>>>,
    )
        requires
            old(self).external_publish_count < u64::MAX,
        ensures
            final(self).external_publish_count == old(self).external_publish_count + 1,
            ({
                let at = "external#"@ + decimal((old(self).external_publish_count + 1) as nat);
                let before = timeline_view(old(self).external_observation_timeline@);
                let after = timeline_view(final(self).external_observation_timeline@);
                match first_publish_match(contracts@, topic@) {
                    None => {
                        &&& after == before.push(
                            overlay_event(
                                at,
                                "external_mqtt_publish_rejected"@,
                                Some(sanitized_message(topic@)),
                                "topic did not match any configured MQTT contract"@,
                            ),
                        )
                        &&& final(self).external_mqtt_final_state == old(self).external_mqtt_final_state
                        &&& final(self).external_mqtt_retained_state == old(self).external_mqtt_retained_state
                    },
                    Some((i, device_id, state_topic)) => {
                        let c = contracts@[i];
                        let missing = absent_fields(string_texts(c.payload.required_fields@), payload@.dom());
                        if missing.len() > 0 {
                            &&& after == before.push(
                                overlay_event(
                                    at,
                                    "external_mqtt_publish_rejected"@,
                                    Some(sanitized_message(topic@)),
                                    "payload missing required fields for "@ + sanitized_message(c.name@) + ": "@
                                        + join_seq(missing, ", "@),
                                ),
                            )
                            &&& final(self).external_mqtt_final_state == old(self).external_mqtt_final_state
                            &&& final(self).external_mqtt_retained_state == old(self).external_mqtt_retained_state
                        } else {
                            match first_field_problem(
                                c,
                                value_views(payload@),
                                verdicts_for(verdict_table(value_verdicts@), i),
                                c.payload.fields.key_seq().len() as int,
                            ) {
                                Some((f, reason)) => {
                                    &&& after == before.push(
                                        overlay_event(
                                            at,
                                            "external_mqtt_publish_rejected"@,
                                            Some(sanitized_message(topic@)),
                                            "payload field "@ + sanitized_message(f) + " is invalid for "@
                                                + sanitized_message(c.name@) + ": "@ + sanitized_message(reason),
                                        ),
                                    )
                                    &&& final(self).external_mqtt_final_state == old(self).external_mqtt_final_state
                                    &&& final(self).external_mqtt_retained_state
                                        == old(self).external_mqtt_retained_state
                                },
                                None => {
                            &&& after == before.push(
                                overlay_event(
                                    at,
                                    "external_mqtt_retained_state_updated"@,
                                    Some(sanitized_message(device_id)),
                                    "external MQTT publish matched "@ + sanitized_message(c.name@)
                                        + " and updated retained state at "@ + sanitized_message(state_topic),
                                ),
                            )
                            &&& nested_value_views(final(self).external_mqtt_final_state@) == nested_value_views(
                                old(self).external_mqtt_final_state@,
                            ).insert(device_id, value_views(payload@))
                            &&& nested_value_views(final(self).external_mqtt_retained_state@)
                                == nested_value_views(old(self).external_mqtt_retained_state@).insert(
                                state_topic,
                                value_views(payload@),
                            )
                                },
                            }
                        }
                    },
                }
            }),
            final(self).latest_report == old(self).latest_report,
            final(self).injected_faults == old(self).injected_faults,
            final(self).run_in_progress == old(self).run_in_progress,
            final(self).has_completed_run == old(self).has_completed_run,
            final(self).external_observations == old(self).external_observations,
            final(self).external_modbus_registers == old(self).external_modbus_registers,
            final(self).modbus == old(self).modbus,
            final(self).modbus_units == old(self).modbus_units,
            final(self).accepted_replay_ids == old(self).accepted_replay_ids,
    {
        self.external_publish_count = self.external_publish_count + 1;
        let at = concat2("external#", u64_to_string(self.external_publish_count).as_str());
        let ghost before = timeline_view(self.external_observation_timeline@);
        let mut found: Option<(usize, String, String)> = None;
        let mut i: usize = 0;
        loop
            invariant_except_break
                i <= contracts.len(),
                found is None,
                first_publish_match(contracts@.take(i as int), topic@) is None,
            ensures
                match found {
                    Some((k, d, st)) => first_publish_match(contracts@, topic@) == Some((k as int, d@, st@))
                        && k < contracts.len(),
                    None => first_publish_match(contracts@, topic@) is None,
                },
            decreases contracts.len() - i,
        {
            if i >= contracts.len() {
                assert(contracts@.take(contracts.len() as int) =~= contracts@);
                break;
            }
            assert(contracts@.take(i + 1).drop_last() =~= contracts@.take(i as int));
            match match_contract(&contracts[i], topic) {
                Some((d, st)) => {
                    proof {
                        lemma_first_match_prefix(contracts@, topic@, i as int);
                    }
                    found = Some((i, d, st));
                    break;
                },
                None => {},
            }
            i = i + 1;
        }
        match found {
            None => {
                let event = TimelineEvent {
                    at,
                    event_type: to_owned("external_mqtt_publish_rejected"),
                    target: Some(sanitize_external_message_value(topic)),
                    message: to_owned("topic did not match any configured MQTT contract"),
                };
                let ghost ev = event_view(event);
                self.external_observation_timeline.push(event);
                assert(timeline_view(self.external_observation_timeline@) =~= before.push(ev));
            },
            Some((k, device_id, state_topic)) => {
                let contract = &contracts[k];
                let missing = missing_fields(&contract.payload.required_fields, &payload);
                if missing.len() > 0 {
                    let mut message = concat2(
                        "payload missing required fields for ",
                        sanitize_external_message_value(contract.name.as_str()).as_str(),
                    );
                    push_str(&mut message, ": ");
                    push_str(&mut message, join(&missing, ", ").as_str());
                    let event = TimelineEvent {
                        at,
                        event_type: to_owned("external_mqtt_publish_rejected"),
                        target: Some(sanitize_external_message_value(topic)),
                        message,
                    };
                    let ghost ev = event_view(event);
                    self.external_observation_timeline.push(event);
                    assert(timeline_view(self.external_observation_timeline@) =~= before.push(ev));
                } else {
                    let empty: Vec<Option<String>> = Vec::new();
                    let own = if k < value_verdicts.len() {
                        &value_verdicts[k]
                    } else {
                        &empty
                    };
                    assert(verdict_views(own@) == verdicts_for(verdict_table(value_verdicts@), k as int)) by {
                        if k >= value_verdicts.len() {
                            assert(verdict_views(own@) =~= Seq::<Option<Seq<char>>>::empty());
                        }
                    }
                    match first_invalid_field(contract, &payload, own) {
                        Some((field, reason)) => {
                            let mut message = concat2(
                                "payload field ",
                                sanitize_external_message_value(field.as_str()).as_str(),
                            );
                            push_str(&mut message, " is invalid for ");
                            push_str(&mut message, sanitize_external_message_value(contract.name.as_str()).as_str());
                            push_str(&mut message, ": ");
                            push_str(&mut message, sanitize_external_message_value(reason.as_str()).as_str());
                            let event = TimelineEvent {
                                at,
                                event_type: to_owned("external_mqtt_publish_rejected"),
                                target: Some(sanitize_external_message_value(topic)),
                                message,
                            };
                            let ghost ev = event_view(event);
                            self.external_observation_timeline.push(event);
                            assert(timeline_view(self.external_observation_timeline@) =~= before.push(ev));
                            return;
                        },
                        None => {},
                    }
                    let ghost pv = value_views(payload@);
                    let copy = clone_values(&payload);
                    let ghost fs = nested_value_views(self.external_mqtt_final_state@);
                    let ghost rs = nested_value_views(self.external_mqtt_retained_state@);
                    self.external_mqtt_final_state.insert(device_id.clone(), copy);
                    assert(nested_value_views(self.external_mqtt_final_state@) =~= fs.insert(device_id@, pv));
                    self.external_mqtt_retained_state.insert(state_topic.clone(), payload);
                    assert(nested_value_views(self.external_mqtt_retained_state@) =~= rs.insert(state_topic@, pv));
                    let mut message = concat2(
                        "external MQTT publish matched ",
                        sanitize_external_message_value(contract.name.as_str()).as_str(),
                    );
                    push_str(&mut message, " and updated retained state at ");
                    push_str(&mut message, sanitize_external_message_value(state_topic.as_str()).as_str());
                    let event = TimelineEvent {
                        at,
                        event_type: to_owned("external_mqtt_retained_state_updated"),
                        target: Some(sanitize_external_message_value(device_id.as_str())),
                        message,
                    };
                    let ghost ev = event_view(event);
                    self.external_observation_timeline.push(event);
                    assert(timeline_view(self.external_observation_timeline@) =~= before.push(ev));
                }
            },
        }
    }

    /// Records a register an external Modbus client read or wrote, under
    /// `modbus.<device>.<register>`, with its readable value's bits when
    /// the caller has a finite one; a register the model lacks is not
    /// recorded.
    pub fn remember_modbus_register(&mut self, device: &str, register: u32, readable_bits: Option<u64>)
        ensures
            if old(self).modbus@.contains_key(device@) && old(self).modbus@[device@].contains_key(register) {
                nested_value_views(final(self).external_modbus_registers@) == nested_value_views(
                    old(self).external_modbus_registers@,
                ).insert(
                    register_key(device@, register),
                    register_record(device@, register, old(self).modbus@[device@][register].value, readable_bits),
                )
            } else {
                final(self).external_modbus_registers == old(self).external_modbus_registers
            },
            final(self).latest_report == old(self).latest_report,
            final(self).injected_faults == old(self).injected_faults,
            final(self).external_publish_count == old(self).external_publish_count,
            final(self).run_in_progress == old(self).run_in_progress,
            final(self).has_completed_run == old(self).has_completed_run,
            final(self).external_observation_timeline == old(self).external_observation_timeline,
            final(self).external_observations == old(self).external_observations,
            final(self).external_mqtt_final_state == old(self).external_mqtt_final_state,
            final(self).external_mqtt_retained_state == old(self).external_mqtt_retained_state,
            final(self).modbus == old(self).modbus,
            final(self).modbus_units == old(self).modbus_units,
            final(self).accepted_replay_ids == old(self).accepted_replay_ids,
    {
        let value = match self.modbus.value(device, register) {
            Some(v) => v.deep_clone(),
            None => {
                return;
            },
        };
        let mut record: StrMap<Value> = StrMap::new();
        record.insert(to_owned("device"), Value::Str(to_owned(device)));
        record.insert(to_owned("register"), Value::UInt(register as u64));
        let ghost vv = value@;
        record.insert(to_owned("value"), value);
        match readable_bits {
            Some(b) => {
                record.insert(to_owned("readable_value"), Value::Float(b));
            },
            None => {},
        }
        let ghost rv = value_views(record@);
        assert(rv =~= register_record(device@, register, vv, readable_bits));
        let mut key = concat2("modbus.", device);
        push_str(&mut key, ".");
        push_str(&mut key, u64_to_string(register as u64).as_str());
        let ghost before = nested_value_views(self.external_modbus_registers@);
        self.external_modbus_registers.insert(key, record);
        assert(nested_value_views(self.external_modbus_registers@) =~= before.insert(
            register_key(device@, register),
            rv,
        ));
    }

    /// Serves a Modbus TCP request from the register model.
    pub fn handle_modbus_request(&mut self, request: &ModbusTcpRequest) -> (r: ModbusReply)
        ensures
            (r.response@, r.touched@, final(self).modbus@) == request_outcome(
                old(self).modbus@,
                old(self).modbus_units@,
                *request,
            ),
            final(self).modbus_units == old(self).modbus_units,
            final(self).accepted_replay_ids == old(self).accepted_replay_ids,
            final(self).external_modbus_registers == old(self).external_modbus_registers,
            final(self).latest_report == old(self).latest_report,
    {
        apply_modbus_tcp_request(&mut self.modbus, &self.modbus_units, request)
    }
}

/// Once a contract matches, the first match over all contracts is the
/// first match over those up to it.
proof fn lemma_first_match_prefix(contracts: Seq<MqttConnectionContract>, topic: Seq<char>, i: int)
    requires
        0 <= i < contracts.len(),
        first_publish_match(contracts.take(i), topic) is None,
        publish_match(contracts[i].command_topic@, contracts[i].state_topic@, topic) is Some,
    ensures
        first_publish_match(contracts, topic) == Some(
            (
                i,
                publish_match(contracts[i].command_topic@, contracts[i].state_topic@, topic)->Some_0.0,
                publish_match(contracts[i].command_topic@, contracts[i].state_topic@, topic)->Some_0.1,
            ),
        ),
    decreases contracts.len(),
{
    if i == contracts.len() - 1 {
        assert(contracts.drop_last() =~= contracts.take(i));
    } else {
        assert(contracts.drop_last().take(i) =~= contracts.take(i));
        lemma_first_match_prefix(contracts.drop_last(), topic, i);
    }
}

/// A device state set by an external MQTT publish is what the state view
/// shows for the device, and what the next run's report holds for it,
/// unless a recorded Modbus register has the same key.
pub proof fn law_published_state_survives_run(
    shown: Map<Seq<char>, Map<Seq<char>, ValueView>>,
    report: Map<Seq<char>, Map<Seq<char>, ValueView>>,
    observations: Map<Seq<char>, Map<Seq<char>, ValueView>>,
    published: Map<Seq<char>, Map<Seq<char>, ValueView>>,
    registers: Map<Seq<char>, Map<Seq<char>, ValueView>>,
    device_id: Seq<char>,
    payload: Map<Seq<char>, ValueView>,
)
    requires
        !registers.contains_key(device_id),
    ensures
        shown.union_prefer_right(published.insert(device_id, payload))[device_id] == payload,
        report.union_prefer_right(with_prefix(observations, bms_prefix())).union_prefer_right(
            published.insert(device_id, payload),
        ).union_prefer_right(registers)[device_id] == payload,
{
}

/// A BMS observation recorded from outside appears, under its prefix, in
/// the rendered report and in the next run's report, unless a recorded
/// Modbus register has the same key.
pub proof fn law_bms_observation_reported(
    shown: Map<Seq<char>, Map<Seq<char>, ValueView>>,
    report: Map<Seq<char>, Map<Seq<char>, ValueView>>,
    observations: Map<Seq<char>, Map<Seq<char>, ValueView>>,
    published: Map<Seq<char>, Map<Seq<char>, ValueView>>,
    registers: Map<Seq<char>, Map<Seq<char>, ValueView>>,
    source: Seq<char>,
    record: Map<Seq<char>, ValueView>,
)
    requires
        !registers.contains_key(bms_prefix() + source),
        !published.contains_key(bms_prefix() + source),
    ensures
        shown.union_prefer_right(with_prefix(observations.insert(source, record), bms_prefix())).union_prefer_right(
            registers,
        )[bms_prefix() + source] == record,
        report.union_prefer_right(with_prefix(observations.insert(source, record), bms_prefix())).union_prefer_right(
            published,
        ).union_prefer_right(registers)[bms_prefix() + source] == record,
{
    let k = bms_prefix() + source;
    let p = bms_prefix();
    assert(k.subrange(0, p.len() as int) =~= p);
    assert(k.subrange(p.len() as int, k.len() as int) =~= source);
    assert(with_prefix(observations.insert(source, record), p).contains_key(k));
}

/// Whether a contract names a filter: its state topic, or that topic with
/// `+` for the device id.
pub open spec fn names_filter(c: MqttConnectionContract, filter: Seq<char>) -> bool {
    filter == c.state_topic@ || filter == crate::checks::replace_all(c.state_topic@, "{device_id}"@, "+"@)
}

/// Whether a subscription filter is served: a contract names it, or some
/// contract exists and the filter matches a retained topic.
pub open spec fn filter_supported(
    contracts: Seq<MqttConnectionContract>,
    retained: Set<Seq<char>>,
    filter: Seq<char>,
) -> bool {
    (exists|i: int| 0 <= i < contracts.len() && names_filter(#[trigger] contracts[i], filter)) || (contracts.len()
        > 0 && exists|t: Seq<char>| #[trigger] retained.contains(t) && topic_matches_filter(filter, t))
}

/// The keys of `ks` that `filter` matches, in order.
pub open spec fn matching_topics(ks: Seq<Seq<char>>, filter: Seq<char>) -> Seq<Seq<char>>
    decreases ks.len(),
{
    if ks.len() == 0 {
        Seq::empty()
    } else {
        matching_topics(ks.drop_last(), filter) + if topic_matches_filter(filter, ks.last()) {
            seq![ks.last()]
        } else {
            Seq::<Seq<char>>::empty()
        }
    }
}

proof fn lemma_matching_topics(ks: Seq<Seq<char>>, filter: Seq<char>)
    requires
        sorted_keys(ks),
    ensures
        sorted_keys(matching_topics(ks, filter)),
        forall|k: Seq<char>|
            #[trigger] matching_topics(ks, filter).contains(k) <==> (ks.contains(k) && topic_matches_filter(filter, k)),
    decreases ks.len(),
{
    if ks.len() > 0 {
        let init = ks.drop_last();
        assert(sorted_keys(init));
        lemma_matching_topics(init, filter);
        let d = matching_topics(init, filter);
        let full = matching_topics(ks, filter);
        if topic_matches_filter(filter, ks.last()) {
            assert(full == d + seq![ks.last()]);
            assert forall|i: int, j: int| 0 <= i < j < full.len() implies lex_lt(#[trigger] full[i], #[trigger] full[j]) by {
                if j == full.len() - 1 {
                    assert(d.contains(full[i]));
                    let m = choose|m: int| 0 <= m < init.len() && init[m] == full[i];
                    assert(ks[m] == full[i]);
                    assert(ks[ks.len() - 1] == full[j]);
                } else {
                    assert(full[i] == d[i]);
                    assert(full[j] == d[j]);
                }
            }
            assert forall|k: Seq<char>| #[trigger] full.contains(k) <==> (ks.contains(k) && topic_matches_filter(filter, k)) by {
                if full.contains(k) {
                    let i = choose|i: int| 0 <= i < full.len() && full[i] == k;
                    if i < d.len() {
                        assert(d[i] == k);
                        assert(d.contains(k));
                        let m = choose|m: int| 0 <= m < init.len() && init[m] == k;
                        assert(ks[m] == k);
                    } else {
                        assert(ks[ks.len() - 1] == k);
                    }
                }
                if ks.contains(k) && topic_matches_filter(filter, k) {
                    let m = choose|m: int| 0 <= m < ks.len() && ks[m] == k;
                    if m < ks.len() - 1 {
                        assert(init[m] == k);
                        assert(d.contains(k));
                        let i = choose|i: int| 0 <= i < d.len() && d[i] == k;
                        assert(full[i] == k);
                    } else {
                        assert(full[full.len() - 1] == k);
                    }
                }
            }
        } else {
            assert(full =~= d);
            assert forall|k: Seq<char>| #[trigger] full.contains(k) <==> (ks.contains(k) && topic_matches_filter(filter, k)) by {
                if ks.contains(k) && topic_matches_filter(filter, k) {
                    let m = choose|m: int| 0 <= m < ks.len() && ks[m] == k;
                    assert(m < ks.len() - 1);
                    assert(init[m] == k);
                }
                if full.contains(k) {
                    assert(d.contains(k));
                    let m = choose|m: int| 0 <= m < init.len() && init[m] == k;
                    assert(ks[m] == k);
                }
            }
        }
    }
}

pub open spec fn replay_topics(ps: Seq<(String, StrMap<Value>)>) -> Seq<Seq<char>> {
    ps.map_values(|p: (String, StrMap<Value>)| p.0@)
}

impl ServeState {
    /// The retained messages a subscription filter is answered with: the
    /// shown retained messages whose topics the filter matches, in topic
    /// order; `None` when the filter is empty or not served.
    #[verifier::loop_isolation(false)]
    pub fn replay_for_filter(&self, contracts: &Vec<MqttConnectionContract>, filter: &str) -> (r: Option<
        Vec<(String, StrMap<Value>)>,
    >)
        ensures
            ({
                let retained = nested_value_views(self.latest_report.retained_messages@).union_prefer_right(
                    nested_value_views(self.external_mqtt_retained_state@),
                );
                match r {
                    None => filter@.len() == 0 || !filter_supported(contracts@, retained.dom(), filter@),
                    Some(ps) => {
                        &&& filter@.len() > 0
                        &&& filter_supported(contracts@, retained.dom(), filter@)
                        &&& sorted_keys(replay_topics(ps@))
                        &&& forall|t: Seq<char>|
                            #[trigger] replay_topics(ps@).contains(t) <==> (retained.contains_key(t)
                                && topic_matches_filter(filter@, t))
                        &&& forall|i: int|
                            0 <= i < ps@.len() ==> value_views((#[trigger] ps@[i]).1@) == retained[ps@[i].0@]
                    },
                }
            }),
    {
        let rv = self.retained_messages_view();
        let ghost retained = nested_value_views(rv@);
        proof {
            use_type_invariant(&rv);
            rv.lemma_wf();
        }
        if chars_of(filter).len() == 0 {
            return None;
        }
        let n = rv.len();
        let mut any = false;
        let mut i: usize = 0;
        while i < n
            invariant
                i <= n,
                n == rv.entry_seq().len(),
                any <==> exists|j: int| 0 <= j < i && topic_matches_filter(filter@, #[trigger] rv.key_seq()[j]),
            decreases n - i,
        {
            if mqtt_topic_matches_filter(filter, rv.key_at(i).as_str()) {
                any = true;
            }
            assert(rv.key_seq()[i as int] == rv.entry_seq()[i as int].0);
            i = i + 1;
        }
        let ghost any_spec = exists|t: Seq<char>| #[trigger] retained.dom().contains(t) && topic_matches_filter(filter@, t);
        assert(any == any_spec) by {
            if any {
                let j = choose|j: int| 0 <= j < n && topic_matches_filter(filter@, #[trigger] rv.key_seq()[j]);
                assert(rv.key_seq()[j] == rv.entry_seq()[j].0);
                assert(retained.dom().contains(rv.key_seq()[j]));
            }
            if any_spec {
                let t = choose|t: Seq<char>| #[trigger] retained.dom().contains(t) && topic_matches_filter(filter@, t);
                assert(rv@.contains_key(t));
                let j = choose|j: int| 0 <= j < rv.entry_seq().len() && rv.entry_seq()[j].0 == t;
                assert(rv.key_seq()[j] == t);
            }
        }
        let mut named = false;
        let mut c: usize = 0;
        while c < contracts.len()
            invariant
                c <= contracts.len(),
                named <==> exists|j: int| 0 <= j < c && names_filter(#[trigger] contracts@[j], filter@),
            decreases contracts.len() - c,
        {
            let st = contracts[c].state_topic.as_str();
            proof {
                reveal_strlit("{device_id}");
                reveal_strlit("+");
            }
            let plus = crate::checks::replace_text(st, "{device_id}", "+");
            if str_eq(filter, st) || str_eq(filter, plus.as_str()) {
                named = true;
            }
            c = c + 1;
        }
        let supported = named || (contracts.len() > 0 && any);
        assert(supported == filter_supported(contracts@, retained.dom(), filter@));
        if !supported {
            return None;
        }
        let mut ps: Vec<(String, StrMap<Value>)> = Vec::new();
        let ghost ks = rv.key_seq();
        let mut i: usize = 0;
        assert(ks.take(0) =~= Seq::<Seq<char>>::empty());
        while i < n
            invariant
                i <= n,
                n == rv.entry_seq().len(),
                ks == rv.key_seq(),
                retained == nested_value_views(rv@),
                replay_topics(ps@) == matching_topics(ks.take(i as int), filter@),
                forall|j: int| 0 <= j < ps@.len() ==> value_views((#[trigger] ps@[j]).1@) == retained[ps@[j].0@],
            decreases n - i,
        {
            assert(ks.take(i + 1).drop_last() =~= ks.take(i as int));
            assert(ks.take(i + 1).last() == ks[i as int]);
            assert(ks[i as int] == rv.entry_seq()[i as int].0);
            let key = rv.key_at(i);
            let ghost before = replay_topics(ps@);
            if mqtt_topic_matches_filter(filter, key.as_str()) {
                let payload = clone_values(rv.value_at(i));
                assert(retained[key@] == value_views(rv.entry_seq()[i as int].1@));
                ps.push((key.clone(), payload));
                assert(replay_topics(ps@) =~= before + seq![key@]);
            } else {
                assert(before + Seq::<Seq<char>>::empty() =~= before);
            }
            i = i + 1;
        }
        assert(ks.take(n as int) =~= ks);
        proof {
            lemma_matching_topics(ks, filter@);
            assert forall|t: Seq<char>| #[trigger] ks.contains(t) <==> retained.contains_key(t) by {
                if ks.contains(t) {
                    let j = choose|j: int| 0 <= j < ks.len() && ks[j] == t;
                    assert(rv.entry_seq()[j].0 == t);
                }
                if retained.contains_key(t) {
                    let j = choose|j: int| 0 <= j < rv.entry_seq().len() && rv.entry_seq()[j].0 == t;
                    assert(ks[j] == t);
                }
            }
        }
        assert(sorted_keys(replay_topics(ps@)));
        assert(forall|t: Seq<char>|
            #[trigger] replay_topics(ps@).contains(t) <==> (retained.contains_key(t) && topic_matches_filter(filter@, t)));
        Some(ps)
    }
}

} // verus!

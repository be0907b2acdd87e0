//! The debug view of a run: the events in execution order, the devices
//! whose state differs from where they started, the assertions with the
//! causes of failures and the checks to try next, and its Markdown form.

use vstd::prelude::*;

use crate::json::json_or_null;
use crate::report::{clone_opt, opt_chars, AssertionResult, RunReport, RunResult};
use crate::runtime::{device_states, event_view, json_payload, result_view, timeline_view, EventView, ResultView, RuntimeDevice};
use crate::strmap::{clone_values, key_union, nested_value_views, sorted_keys, value_maps_equal, value_views, StrMap};
use crate::text::{concat2, decimal, lex_lt, push_str, string_texts, to_owned, usize_to_string};
use crate::value::{Value, ValueView};
use crate::json::yaml_map_to_json;

verus! {

/// One event of the execution order, numbered from 0.
#[derive(Debug)]
pub struct DebugTimelineEvent {
    pub sequence: usize,
    pub at: String,
    pub event_type: String,
    pub target: Option<String>,
    pub message: String,
}

/// A device whose state differs from its initial one.
#[derive(Debug)]
pub struct DebugStateDiff {
    pub target: String,
    pub before: Option<StrMap<Value>>,
    pub after: Option<StrMap<Value>>,
}

/// An assertion as the debug view shows it.
#[derive(Debug)]
pub struct DebugAssertion {
    pub name: String,
    pub assertion_type: String,
    pub passed: bool,
    pub message: String,
    pub impact_level: Option<String>,
    pub impact_message: Option<String>,
}

/// The debug view of a run.
#[derive(Debug)]
pub struct DebugReport {
    pub schema_version: String,
    pub scenario_name: String,
    pub result: RunResult,
    pub execution_order: Vec<DebugTimelineEvent>,
    pub state_diffs: Vec<DebugStateDiff>,
    pub assertions: Vec<DebugAssertion>,
    pub failure_causes: Vec<String>,
    pub suggested_checks: Vec<String>,
}

/// Each device's initial state in JSON form; a later device with the same
/// id wins.
pub open spec fn initial_states(ds: Seq<RuntimeDevice>) -> Map<Seq<char>, Map<Seq<char>, ValueView>> {
    device_states(ds).map_values(|m: Map<Seq<char>, ValueView>| json_payload(m))
}

pub open spec fn state_at(m: Map<Seq<char>, Map<Seq<char>, ValueView>>, k: Seq<char>) -> Option<Map<Seq<char>, ValueView>> {
    if m.contains_key(k) {
        Some(m[k])
    } else {
        None
    }
}

/// Whether a device's state differs between the two maps.
pub open spec fn differs(
    before: Map<Seq<char>, Map<Seq<char>, ValueView>>,
    after: Map<Seq<char>, Map<Seq<char>, ValueView>>,
    k: Seq<char>,
) -> bool {
    state_at(before, k) != state_at(after, k)
}

/// The keys whose states differ, in the order given.
pub open spec fn differing(
    ks: Seq<Seq<char>>,
    before: Map<Seq<char>, Map<Seq<char>, ValueView>>,
    after: Map<Seq<char>, Map<Seq<char>, ValueView>>,
) -> Seq<Seq<char>>
    decreases ks.len(),
{
    if ks.len() == 0 {
        Seq::empty()
    } else {
        differing(ks.drop_last(), before, after) + if differs(before, after, ks.last()) {
            seq![ks.last()]
        } else {
            Seq::<Seq<char>>::empty()
        }
    }
}

proof fn lemma_differing(
    ks: Seq<Seq<char>>,
    before: Map<Seq<char>, Map<Seq<char>, ValueView>>,
    after: Map<Seq<char>, Map<Seq<char>, ValueView>>,
)
    requires
        sorted_keys(ks),
    ensures
        sorted_keys(differing(ks, before, after)),
        forall|k: Seq<char>|
            #[trigger] differing(ks, before, after).contains(k) <==> (ks.contains(k) && differs(before, after, k)),
    decreases ks.len(),
{
    if ks.len() > 0 {
        let init = ks.drop_last();
        assert(sorted_keys(init));
        lemma_differing(init, before, after);
        let d = differing(init, before, after);
        let full = differing(ks, before, after);
        if differs(before, after, ks.last()) {
            assert(full == d + seq![ks.last()]);
            assert forall|i: int, j: int| 0 <= i < j < full.len() implies lex_lt(#[trigger] full[i], #[trigger] full[j]) by {
                if j == full.len() - 1 {
                    assert(d.contains(full[i]));
                    let m = choose|m: int| 0 <= m < init.len() && init[m] == full[i];
                    assert(ks[m] == full[i]);
                    assert(ks[ks.len() - 1] == full[j]);
                } else {
                    assert(full[i] == d[i]);
                    assert(full[j] == d[j]);
                }
            }
            assert forall|k: Seq<char>| #[trigger] full.contains(k) <==> (ks.contains(k) && differs(before, after, k)) by {
                if full.contains(k) {
                    let i = choose|i: int| 0 <= i < full.len() && full[i] == k;
                    if i < d.len() {
                        assert(d[i] == k);
                        assert(d.contains(k));
                        let m = choose|m: int| 0 <= m < init.len() && init[m] == k;
                        assert(ks[m] == k);
                    } else {
                        assert(ks[ks.len() - 1] == k);
                    }
                }
                if ks.contains(k) && differs(before, after, k) {
                    let m = choose|m: int| 0 <= m < ks.len() && ks[m] == k;
                    if m < ks.len() - 1 {
                        assert(init[m] == k);
                        assert(d.contains(k));
                        let i = choose|i: int| 0 <= i < d.len() && d[i] == k;
                        assert(full[i] == k);
                    } else {
                        assert(full[full.len() - 1] == k);
                    }
                }
            }
        } else {
            assert(full =~= d);
            assert forall|k: Seq<char>| #[trigger] full.contains(k) <==> (ks.contains(k) && differs(before, after, k)) by {
                if ks.contains(k) && differs(before, after, k) {
                    let m = choose|m: int| 0 <= m < ks.len() && ks[m] == k;
                    assert(m < ks.len() - 1);
                    assert(init[m] == k);
                }
                if full.contains(k) {
                    assert(d.contains(k));
                    let m = choose|m: int| 0 <= m < init.len() && init[m] == k;
                    assert(ks[m] == k);
                }
            }
        }
    }
}

pub open spec fn opt_views(o: Option<StrMap<Value>>) -> Option<Map<Seq<char>, ValueView>> {
    match o {
        Some(m) => Some(value_views(m@)),
        None => None,
    }
}

/// A diff records the device and its states before and after.
pub open spec fn diff_ok(
    d: DebugStateDiff,
    before: Map<Seq<char>, Map<Seq<char>, ValueView>>,
    after: Map<Seq<char>, Map<Seq<char>, ValueView>>,
) -> bool {
    opt_views(d.before) == state_at(before, d.target@) && opt_views(d.after) == state_at(after, d.target@)
}

pub open spec fn debug_event_view(e: DebugTimelineEvent) -> (nat, EventView) {
    (e.sequence as nat, EventView { at: e.at@, event_type: e.event_type@, target: opt_chars(e.target), message: e.message@ })
}

pub open spec fn debug_assertion_view(a: DebugAssertion) -> ResultView {
    ResultView {
        name: a.name@,
        assertion_type: a.assertion_type@,
        passed: a.passed,
        message: a.message@,
        impact_level: opt_chars(a.impact_level),
        impact_message: opt_chars(a.impact_message),
        reference_id: None,
    }
}

/// What is said of a failed assertion.
pub open spec fn failure_cause(a: ResultView) -> Seq<char> {
    a.name + " ("@ + a.assertion_type + ") failed: "@ + a.message
}

/// The causes of the failed assertions, in order.
pub open spec fn failure_causes(s: Seq<ResultView>) -> Seq<Seq<char>>
    decreases s.len(),
{
    if s.len() == 0 {
        Seq::empty()
    } else {
        failure_causes(s.drop_last()) + if s.last().passed {
            Seq::<Seq<char>>::empty()
        } else {
            seq![failure_cause(s.last())]
        }
    }
}

/// The checks suggested when nothing failed, and when something did.
pub open spec fn suggested_checks(any_failed: bool) -> Seq<Seq<char>> {
    if !any_failed {
        seq!["No failed assertions. Review state_diffs for expected device changes."@]
    } else {
        seq![
            "Check the failed assertion target and condition against final_state."@,
            "Inspect execution_order around the failed target for missing commands, faults, or external observations."@,
            "Use --report-json with roomci run if you need the complete runtime report."@,
        ]
    }
}

fn initial_state_map(devices: &Vec<RuntimeDevice>) -> (r: StrMap<StrMap<Value>>)
    ensures
        nested_value_views(r@) == initial_states(devices@),
{
    let mut r: StrMap<StrMap<Value>> = StrMap::new();
    let mut i: usize = 0;
    assert(devices@.take(0) =~= Seq::<RuntimeDevice>::empty());
    assert(nested_value_views(r@) =~= initial_states(devices@.take(0)));
    while i < devices.len()
        invariant
            i <= devices.len(),
            nested_value_views(r@) == initial_states(devices@.take(i as int)),
        decreases devices.len() - i,
    {
        let d = &devices[i];
        assert(devices@.take(i + 1).drop_last() =~= devices@.take(i as int));
        let json = yaml_map_to_json(&d.state);
        let ghost jv = json_payload(value_views(d.state@));
        assert(value_views(json@) =~= jv);
        let ghost before = nested_value_views(r@);
        r.insert(d.id.clone(), json);
        assert(nested_value_views(r@) =~= before.insert(d.id@, jv));
        assert(initial_states(devices@.take(i + 1)) =~= initial_states(devices@.take(i as int)).insert(d.id@, jv));
        i = i + 1;
    }
    assert(devices@.take(devices.len() as int) =~= devices@);
    r
}

fn state_diffs(before: &StrMap<StrMap<Value>>, after: &StrMap<StrMap<Value>>) -> (r: Vec<DebugStateDiff>)
    ensures
        sorted_keys(r@.map_values(|d: DebugStateDiff| d.target@)),
        forall|k: Seq<char>|
            r@.map_values(|d: DebugStateDiff| d.target@).contains(k) <==> ((before@.contains_key(k)
                || after@.contains_key(k)) && differs(nested_value_views(before@), nested_value_views(after@), k)),
        forall|t: int|
            0 <= t < r@.len() ==> diff_ok(#[trigger] r@[t], nested_value_views(before@), nested_value_views(after@)),
{
    let ghost b = nested_value_views(before@);
    let ghost a = nested_value_views(after@);
    let keys = key_union(before, after);
    let ghost ks = string_texts(keys@);
    let mut r: Vec<DebugStateDiff> = Vec::new();
    let mut j: usize = 0;
    assert(ks.take(0) =~= Seq::<Seq<char>>::empty());
    while j < keys.len()
        invariant
            j <= keys.len(),
            ks == string_texts(keys@),
            b == nested_value_views(before@),
            a == nested_value_views(after@),
            r@.map_values(|d: DebugStateDiff| d.target@) == differing(ks.take(j as int), b, a),
            forall|t: int| 0 <= t < r@.len() ==> diff_ok(#[trigger] r@[t], b, a),
        decreases keys.len() - j,
    {
        let k = &keys[j];
        assert(ks.take(j + 1).drop_last() =~= ks.take(j as int));
        assert(ks.take(j + 1).last() == k@);
        let old_view = before.get(k.as_str());
        let new_view = after.get(k.as_str());
        let differ = match (old_view, new_view) {
            (Some(x), Some(y)) => !value_maps_equal(x, y),
            (None, None) => false,
            _ => true,
        };
        assert(differ == differs(b, a, k@));
        let ghost targets = r@.map_values(|d: DebugStateDiff| d.target@);
        if differ {
            let d = DebugStateDiff {
                target: k.clone(),
                before: match old_view {
                    Some(x) => Some(clone_values(x)),
                    None => None,
                },
                after: match new_view {
                    Some(y) => Some(clone_values(y)),
                    None => None,
                },
            };
            assert(diff_ok(d, b, a));
            r.push(d);
            assert(r@.map_values(|d: DebugStateDiff| d.target@) =~= targets + seq![k@]);
        } else {
            assert(targets + Seq::<Seq<char>>::empty() =~= targets);
        }
        j = j + 1;
    }
    assert(ks.take(keys.len() as int) =~= ks);
    proof {
        lemma_differing(ks, b, a);
    }
    r
}

/// Builds the debug view of a run from the devices it started with and
/// its report.
pub fn build_debug_report(devices: &Vec<RuntimeDevice>, report: &RunReport) -> (d: DebugReport)
    ensures
        d.schema_version@ == "roomci.debug.v1"@,
        d.scenario_name@ == report.scenario_name@,
        d.result == report.result,
        d.execution_order@.len() == report.timeline@.len(),
        forall|i: int|
            0 <= i < report.timeline@.len() ==> debug_event_view(#[trigger] d.execution_order@[i]) == (
                i as nat,
                timeline_view(report.timeline@)[i],
            ),
        sorted_keys(d.state_diffs@.map_values(|x: DebugStateDiff| x.target@)),
        forall|k: Seq<char>|
            d.state_diffs@.map_values(|x: DebugStateDiff| x.target@).contains(k) <==> ((initial_states(
                devices@,
            ).contains_key(k) || report.final_state@.contains_key(k)) && differs(
                initial_states(devices@),
                nested_value_views(report.final_state@),
                k,
            )),
        forall|t: int|
            0 <= t < d.state_diffs@.len() ==> diff_ok(
                #[trigger] d.state_diffs@[t],
                initial_states(devices@),
                nested_value_views(report.final_state@),
            ),
        d.assertions@.len() == report.assertions@.len(),
        forall|i: int|
            0 <= i < report.assertions@.len() ==> debug_assertion_view(#[trigger] d.assertions@[i]) == (ResultView {
                reference_id: None,
                ..result_view(report.assertions@[i])
            }),
        string_texts(d.failure_causes@) == failure_causes(
            report.assertions@.map_values(|a: AssertionResult| result_view(a)),
        ),
        string_texts(d.suggested_checks@) == suggested_checks(d.failure_causes@.len() > 0),
{
    let initial = initial_state_map(devices);
    let diffs = state_diffs(&initial, &report.final_state);
    proof {
        assert(initial@.dom() =~= initial_states(devices@).dom());
    }
    let mut order: Vec<DebugTimelineEvent> = Vec::new();
    let mut i: usize = 0;
    while i < report.timeline.len()
        invariant
            i <= report.timeline.len(),
            order@.len() == i,
            forall|j: int|
                0 <= j < i ==> debug_event_view(#[trigger] order@[j]) == (j as nat, timeline_view(report.timeline@)[j]),
        decreases report.timeline.len() - i,
    {
        let e = &report.timeline[i];
        order.push(
            DebugTimelineEvent {
                sequence: i,
                at: e.at.clone(),
                event_type: e.event_type.clone(),
                target: clone_opt(&e.target),
                message: e.message.clone(),
            },
        );
        i = i + 1;
    }
    let ghost rs = report.assertions@.map_values(|a: AssertionResult| result_view(a));
    let mut assertions: Vec<DebugAssertion> = Vec::new();
    let mut causes: Vec<String> = Vec::new();
    let mut i: usize = 0;
    assert(rs.take(0) =~= Seq::<ResultView>::empty());
    while i < report.assertions.len()
        invariant
            i <= report.assertions.len(),
            rs == report.assertions@.map_values(|a: AssertionResult| result_view(a)),
            assertions@.len() == i,
            forall|j: int|
                0 <= j < i ==> debug_assertion_view(#[trigger] assertions@[j]) == (ResultView {
                    reference_id: None,
                    ..result_view(report.assertions@[j])
                }),
            string_texts(causes@) == failure_causes(rs.take(i as int)),
        decreases report.assertions.len() - i,
    {
        let a = &report.assertions[i];
        assert(rs.take(i + 1).drop_last() =~= rs.take(i as int));
        assert(rs.take(i + 1).last() == result_view(*a));
        assertions.push(
            DebugAssertion {
                name: a.name.clone(),
                assertion_type: a.assertion_type.clone(),
                passed: a.passed,
                message: a.message.clone(),
                impact_level: clone_opt(&a.impact_level),
                impact_message: clone_opt(&a.impact_message),
            },
        );
        let ghost before = string_texts(causes@);
        if !a.passed {
            let mut cause = a.name.clone();
            push_str(&mut cause, " (");
            push_str(&mut cause, a.assertion_type.as_str());
            push_str(&mut cause, ") failed: ");
            push_str(&mut cause, a.message.as_str());
            causes.push(cause);
            assert(string_texts(causes@) =~= before + seq![failure_cause(result_view(*a))]);
        } else {
            assert(before + Seq::<Seq<char>>::empty() =~= before);
        }
        i = i + 1;
    }
    assert(rs.take(report.assertions.len() as int) =~= rs);
    let checks = if causes.len() == 0 {
        vec![to_owned("No failed assertions. Review state_diffs for expected device changes.")]
    } else {
        vec![
            to_owned("Check the failed assertion target and condition against final_state."),
            to_owned(
                "Inspect execution_order around the failed target for missing commands, faults, or external observations.",
            ),
            to_owned("Use --report-json with roomci run if you need the complete runtime report."),
        ]
    };
    assert(string_texts(checks@) =~= suggested_checks(causes@.len() > 0));
    DebugReport {
        schema_version: to_owned("roomci.debug.v1"),
        scenario_name: report.scenario_name.clone(),
        result: report.result,
        execution_order: order,
        state_diffs: diffs,
        assertions,
        failure_causes: causes,
        suggested_checks: checks,
    }
}

/// How `{:?}` writes a result.
pub open spec fn result_debug_text(r: RunResult) -> Seq<char> {
    match r {
        RunResult::Passed => "Passed"@,
        RunResult::Failed => "Failed"@,
    }
}

pub open spec fn event_line(e: DebugTimelineEvent) -> Seq<char> {
    decimal(e.sequence as nat) + ". `"@ + e.at@ + "` `"@ + e.event_type@ + "` `"@ + match opt_chars(e.target) {
        Some(t) => t,
        None => "-"@,
    } + "` - "@ + e.message@ + "\n"@
}

pub open spec fn event_lines(s: Seq<DebugTimelineEvent>) -> Seq<char>
    decreases s.len(),
{
    if s.len() == 0 {
        Seq::empty()
    } else {
        event_lines(s.drop_last()) + event_line(s.last())
    }
}

pub open spec fn diff_lines(s: Seq<DebugStateDiff>) -> Seq<char>
    decreases s.len(),
{
    if s.len() == 0 {
        Seq::empty()
    } else {
        diff_lines(s.drop_last()) + "- `"@ + s.last().target@ + "` changed\n"@
    }
}

pub open spec fn assertion_line(a: DebugAssertion) -> Seq<char> {
    "- `"@ + (if a.passed {
        "passed"@
    } else {
        "failed"@
    }) + "` `"@ + a.assertion_type@ + "`: "@ + a.message@ + "\n"@
}

pub open spec fn assertion_lines(s: Seq<DebugAssertion>) -> Seq<char>
    decreases s.len(),
{
    if s.len() == 0 {
        Seq::empty()
    } else {
        assertion_lines(s.drop_last()) + assertion_line(s.last())
    }
}

pub open spec fn bullet_lines(s: Seq<Seq<char>>) -> Seq<char>
    decreases s.len(),
{
    if s.len() == 0 {
        Seq::empty()
    } else {
        bullet_lines(s.drop_last()) + "- "@ + s.last() + "\n"@
    }
}

/// The Markdown form of a debug view.
pub open spec fn debug_markdown_text(d: DebugReport) -> Seq<char> {
    "# roomci Debug: "@ + d.scenario_name@ + "\n\n"@ + "- Result: `"@ + result_debug_text(d.result) + "`\n"@
        + "- Events: `"@ + decimal(d.execution_order@.len()) + "`\n"@ + "- Assertions: `"@ + decimal(
        d.assertions@.len(),
    ) + "`\n\n"@ + "## Execution Order\n\n"@ + event_lines(d.execution_order@) + "\n## State Diffs\n\n"@ + (if d.state_diffs@.len()
        == 0 {
        "No state changes from initial device state.\n"@
    } else {
        diff_lines(d.state_diffs@)
    }) + "\n## Assertions\n\n"@ + assertion_lines(d.assertions@) + "\n## Failure Causes\n\n"@ + (
    if d.failure_causes@.len() == 0 {
        "No failed assertions.\n"@
    } else {
        bullet_lines(string_texts(d.failure_causes@))
    }) + "\n## Suggested Checks\n\n"@ + bullet_lines(string_texts(d.suggested_checks@))
}

fn push_bullets(out: &mut String, items: &Vec<String>)
    ensures
        final(out)@ == old(out)@ + bullet_lines(string_texts(items@)),
{
    let ghost start = out@;
    let ghost all = string_texts(items@);
    let mut i: usize = 0;
    assert(all.take(0) =~= Seq::<Seq<char>>::empty());
    while i < items.len()
        invariant
            i <= items.len(),
            all == string_texts(items@),
            out@ == start + bullet_lines(all.take(i as int)),
        decreases items.len() - i,
    {
        assert(all.take(i + 1).drop_last() =~= all.take(i as int));
        assert(all.take(i + 1).last() == items@[i as int]@);
        push_str(out, "- ");
        push_str(out, items[i].as_str());
        push_str(out, "\n");
        assert(out@ =~= start + bullet_lines(all.take(i + 1)));
        i = i + 1;
    }
    assert(all.take(items.len() as int) =~= all);
}

fn push_event_line(out: &mut String, e: &DebugTimelineEvent)
    ensures
        final(out)@ == old(out)@ + event_line(*e),
{
    let ghost start = out@;
    push_str(out, usize_to_string(e.sequence).as_str());
    push_str(out, ". `");
    push_str(out, e.at.as_str());
    push_str(out, "` `");
    push_str(out, e.event_type.as_str());
    push_str(out, "` `");
    match &e.target {
        Some(t) => push_str(out, t.as_str()),
        None => push_str(out, "-"),
    }
    push_str(out, "` - ");
    push_str(out, e.message.as_str());
    push_str(out, "\n");
    assert(out@ =~= start + event_line(*e));
}

fn push_event_lines(out: &mut String, events: &Vec<DebugTimelineEvent>)
    ensures
        final(out)@ == old(out)@ + event_lines(events@),
{
    let ghost head = out@;
    let ghost evs = events@;
    let mut i: usize = 0;
    assert(evs.take(0) =~= Seq::<DebugTimelineEvent>::empty());
    while i < events.len()
        invariant
            i <= events.len(),
            evs == events@,
            out@ == head + event_lines(evs.take(i as int)),
        decreases events.len() - i,
    {
        assert(evs.take(i + 1).drop_last() =~= evs.take(i as int));
        assert(evs.take(i + 1).last() == events@[i as int]);
        push_event_line(out, &events[i]);
        assert(out@ =~= head + event_lines(evs.take(i + 1)));
        i = i + 1;
    }
    assert(evs.take(evs.len() as int) =~= evs);
}

fn push_diff_lines(out: &mut String, diffs: &Vec<DebugStateDiff>)
    ensures
        final(out)@ == old(out)@ + diff_lines(diffs@),
{
    let ghost head = out@;
    let ghost ds = diffs@;
    let mut i: usize = 0;
    assert(ds.take(0) =~= Seq::<DebugStateDiff>::empty());
    while i < diffs.len()
        invariant
            i <= diffs.len(),
            ds == diffs@,
            out@ == head + diff_lines(ds.take(i as int)),
        decreases diffs.len() - i,
    {
        assert(ds.take(i + 1).drop_last() =~= ds.take(i as int));
        assert(ds.take(i + 1).last() == diffs@[i as int]);
        push_str(out, "- `");
        push_str(out, diffs[i].target.as_str());
        push_str(out, "` changed\n");
        assert(out@ =~= head + diff_lines(ds.take(i + 1)));
        i = i + 1;
    }
    assert(ds.take(ds.len() as int) =~= ds);
}

fn push_assertion_line(out: &mut String, a: &DebugAssertion)
    ensures
        final(out)@ == old(out)@ + assertion_line(*a),
{
    let ghost start = out@;
    push_str(out, "- `");
    push_str(
        out,
        if a.passed {
            "passed"
        } else {
            "failed"
        },
    );
    push_str(out, "` `");
    push_str(out, a.assertion_type.as_str());
    push_str(out, "`: ");
    push_str(out, a.message.as_str());
    push_str(out, "\n");
    assert(out@ =~= start + assertion_line(*a));
}

fn push_assertion_lines(out: &mut String, assertions: &Vec<DebugAssertion>)
    ensures
        final(out)@ == old(out)@ + assertion_lines(assertions@),
{
    let ghost head = out@;
    let ghost asx = assertions@;
    let mut i: usize = 0;
    assert(asx.take(0) =~= Seq::<DebugAssertion>::empty());
    while i < assertions.len()
        invariant
            i <= assertions.len(),
            asx == assertions@,
            out@ == head + assertion_lines(asx.take(i as int)),
        decreases assertions.len() - i,
    {
        assert(asx.take(i + 1).drop_last() =~= asx.take(i as int));
        assert(asx.take(i + 1).last() == assertions@[i as int]);
        push_assertion_line(out, &assertions[i]);
        assert(out@ =~= head + assertion_lines(asx.take(i + 1)));
        i = i + 1;
    }
    assert(asx.take(asx.len() as int) =~= asx);
}

/// Writes a debug view as Markdown.
pub fn debug_markdown(debug: &DebugReport) -> (s: String)
    ensures
        s@ == debug_markdown_text(*debug),
{
    let mut out = concat2("# roomci Debug: ", debug.scenario_name.as_str());
    push_str(&mut out, "\n\n");
    push_str(&mut out, "- Result: `");
    push_str(
        &mut out,
        match debug.result {
            RunResult::Passed => "Passed",
            RunResult::Failed => "Failed",
        },
    );
    push_str(&mut out, "`\n");
    push_str(&mut out, "- Events: `");
    push_str(&mut out, usize_to_string(debug.execution_order.len()).as_str());
    push_str(&mut out, "`\n");
    push_str(&mut out, "- Assertions: `");
    push_str(&mut out, usize_to_string(debug.assertions.len()).as_str());
    push_str(&mut out, "`\n\n");
    push_str(&mut out, "## Execution Order\n\n");
    push_event_lines(&mut out, &debug.execution_order);
    push_str(&mut out, "\n## State Diffs\n\n");
    if debug.state_diffs.len() == 0 {
        push_str(&mut out, "No state changes from initial device state.\n");
    } else {
        push_diff_lines(&mut out, &debug.state_diffs);
    }
    push_str(&mut out, "\n## Assertions\n\n");
    push_assertion_lines(&mut out, &debug.assertions);
    push_str(&mut out, "\n## Failure Causes\n\n");
    if debug.failure_causes.len() == 0 {
        push_str(&mut out, "No failed assertions.\n");
    } else {
        push_bullets(&mut out, &debug.failure_causes);
    }
    push_str(&mut out, "\n## Suggested Checks\n\n");
    push_bullets(&mut out, &debug.suggested_checks);
    assert(out@ =~= debug_markdown_text(*debug));
    out
}

} // verus!

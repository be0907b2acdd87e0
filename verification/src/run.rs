//! A scenario run: its events ordered by time (steps before assertions at
//! the same time, and otherwise in the order they were declared), each
//! applied to the runtime in turn, and the report that results.

use vstd::prelude::*;

use crate::assertions::{assertion_delays_in_range, assertion_result, evaluate_assertion, ValidatedAssertionKind};
use crate::device::DeviceModelError;
use crate::report::{AssertionResult, RunReport, RunResult};
use crate::runtime::{
    command_effect, contact_effect, entry, fault_effect, intercom_effect, publish_effect,
    push_event, result_view, timeline_view, RuntimeState, RuntimeView, ValidatedIntercomStep,
    ValidatedMqttPublishStep,
};
use crate::scenario::{CommandTarget, ContactId, Identifier, ValidatedFaultKind};
use crate::strmap::{nested_value_views, value_views};
use crate::text::to_owned;

verus! {

/// A scenario step as the run applies it. Steps whose effects rest on
/// floating-point readings or on the host (Modbus writes, sensor readings,
/// ops and automation steps) are handed back to the caller by their index.
pub enum StepKind {
    Event(String),
    Fault(ValidatedFaultKind),
    Command(CommandTarget, String),
    MqttPublish(ValidatedMqttPublishStep),
    Contact(ContactId, Identifier),
    Intercom(ValidatedIntercomStep),
    Host(usize),
}

/// What happens at a point of the run.
pub enum EventKind {
    GlobalFault(ValidatedFaultKind),
    Step(StepKind),
    Assertion(ValidatedAssertionKind),
}

/// An event at a time (milliseconds from the start); `order` puts
/// assertions (1) after steps and faults (0) at the same time.
pub struct ScheduledEvent {
    pub at: i64,
    pub order: u8,
    pub kind: EventKind,
}

/// What applying an event came to.
pub enum EventOutcome {
    Applied,
    Assessed(AssertionResult),
    Host(usize),
}

/// What a step does to the runtime.
pub open spec fn step_effect(v: RuntimeView, at: int, s: StepKind) -> RuntimeView {
    match s {
        StepKind::Event(name) => RuntimeView { timeline: v.timeline.push(entry(at, "event"@, None, name@)), ..v },
        StepKind::Fault(f) => fault_effect(v, at, f),
        StepKind::Command(target, action) => command_effect(v, at, target, action@),
        StepKind::MqttPublish(p) => publish_effect(v, at, p.client@, p.topic@, value_views(p.payload@)),
        StepKind::Contact(id, state) => if v.contacts.contains_key(id.0@) {
            contact_effect(v, at, id.0@, state@)
        } else {
            v
        },
        StepKind::Intercom(i) => intercom_effect(v, at, i.id@, i.event@, i.outcome@, crate::report::opt_chars(i.fallback)),
        StepKind::Host(_) => v,
    }
}

/// Whether a step names a contact the runtime does not know.
pub open spec fn unknown_contact(v: RuntimeView, s: StepKind) -> bool {
    s matches StepKind::Contact(id, _) && !v.contacts.contains_key(id.0@)
}

impl RuntimeState {
    /// Applies one event: a fault or step changes the runtime (a step the
    /// caller applies is handed back by its index), an assertion is
    /// evaluated against it. A contact step on an unknown contact is an
    /// error and changes nothing. `float_verdict` is the caller's
    /// comparison of floating-point readings for an assertion that needs
    /// one.
    #[verifier::spinoff_prover]
    #[verifier::rlimit(80)]
    pub fn apply_event(&mut self, event: &ScheduledEvent, float_verdict: bool) -> (r: Result<EventOutcome, DeviceModelError>)
        requires
            event.at > i64::MIN,
            event.kind matches EventKind::Assertion(a) ==> assertion_delays_in_range(old(self)@, a),
        ensures
            match event.kind {
                EventKind::GlobalFault(f) => r matches Ok(EventOutcome::Applied) && final(self)@ == fault_effect(
                    old(self)@,
                    event.at as int,
                    f,
                ),
                EventKind::Step(s) => if unknown_contact(old(self)@, s) {
                    r matches Err(DeviceModelError::UnknownContact(c)) && c@ == s->Contact_0.0@ && final(self)@ == old(self)@
                } else if s is Host {
                    r matches Ok(EventOutcome::Host(i)) && i == s->Host_0 && final(self)@ == old(self)@
                } else {
                    r matches Ok(EventOutcome::Applied) && final(self)@ == step_effect(old(self)@, event.at as int, s)
                },
                EventKind::Assertion(a) => r matches Ok(EventOutcome::Assessed(x)) && result_view(x) == assertion_result(
                    old(self)@,
                    a,
                    float_verdict,
                ) && final(self)@ == old(self)@,
            },
    {
        let at = event.at;
        match &event.kind {
            EventKind::GlobalFault(fault) => {
                self.apply_fault(at, fault);
                Ok(EventOutcome::Applied)
            },
            EventKind::Step(step) => match step {
                StepKind::Event(name) => {
                    let ghost before = self@;
                    push_event(&mut self.timeline, at, "event", None, name.clone());
                    assert(self@ =~= step_effect(before, at as int, *step));
                    Ok(EventOutcome::Applied)
                },
                StepKind::Fault(fault) => {
                    self.apply_fault(at, fault);
                    Ok(EventOutcome::Applied)
                },
                StepKind::Command(target, action) => {
                    self.apply_command(at, target, action.as_str());
                    Ok(EventOutcome::Applied)
                },
                StepKind::MqttPublish(publish) => {
                    self.apply_mqtt_publish(at, publish);
                    Ok(EventOutcome::Applied)
                },
                StepKind::Contact(id, state) => {
                    match self.apply_contact_step(at, id.0.as_str(), state.as_str()) {
                        Ok(()) => Ok(EventOutcome::Applied),
                        Err(e) => Err(e),
                    }
                },
                StepKind::Intercom(intercom) => {
                    self.apply_intercom_step(at, intercom);
                    Ok(EventOutcome::Applied)
                },
                StepKind::Host(i) => Ok(EventOutcome::Host(*i)),
            },
            EventKind::Assertion(assertion) => {
                let result = evaluate_assertion(self, assertion, float_verdict);
                Ok(EventOutcome::Assessed(result))
            },
        }
    }
}

/// A run passes when every assertion passed.
pub open spec fn all_passed(s: Seq<AssertionResult>) -> bool {
    forall|i: int| 0 <= i < s.len() ==> (#[trigger] s[i]).passed
}

/// The result of a run with these assertion results.
pub fn run_result(assertions: &Vec<AssertionResult>) -> (r: RunResult)
    ensures
        r == (if all_passed(assertions@) {
            RunResult::Passed
        } else {
            RunResult::Failed
        }),
{
    let mut i: usize = 0;
    while i < assertions.len()
        invariant
            i <= assertions.len(),
            forall|j: int| 0 <= j < i ==> (#[trigger] assertions@[j]).passed,
        decreases assertions.len() - i,
    {
        if !assertions[i].passed {
            return RunResult::Failed;
        }
        i = i + 1;
    }
    RunResult::Passed
}

/// The report of a finished run: its assertions and result, the timeline,
/// the device states and the retained messages the runtime ended with.
pub fn finish_run(runtime: RuntimeState, assertions: Vec<AssertionResult>, run_id: &str, scenario_name: &str) -> (r:
    RunReport)
    ensures
        r.schema_version@ == "roomci.report.v1"@,
        r.run_id@ == run_id@,
        r.generated_by@ == "roomci"@,
        r.scenario_name@ == scenario_name@,
        r.result == (if all_passed(assertions@) {
            RunResult::Passed
        } else {
            RunResult::Failed
        }),
        r.assertions@ == assertions@,
        timeline_view(r.timeline@) == runtime@.timeline,
        nested_value_views(r.final_state@) == runtime@.states,
        nested_value_views(r.retained_messages@) == runtime@.broker.retained,
{
    let result = run_result(&assertions);
    let retained = crate::strmap::clone_nested_values(runtime.broker.retained());
    RunReport {
        schema_version: to_owned("roomci.report.v1"),
        run_id: to_owned(run_id),
        generated_by: to_owned("roomci"),
        scenario_name: to_owned(scenario_name),
        result,
        timeline: runtime.timeline,
        assertions,
        final_state: runtime.states,
        retained_messages: retained,
    }
}

// ---------------------------------------------------------------------------
// Ordering
// ---------------------------------------------------------------------------

/// Whether `a` comes no later than `b`: by time, then by order.
pub open spec fn no_later(a: ScheduledEvent, b: ScheduledEvent) -> bool {
    a.at < b.at || (a.at == b.at && a.order <= b.order)
}

/// Puts `x` after every event of `s` that comes no later than it, `s`
/// being in time order.
pub open spec fn insert_in_order(s: Seq<ScheduledEvent>, x: ScheduledEvent) -> Seq<ScheduledEvent>
    decreases s.len(),
{
    if s.len() == 0 {
        seq![x]
    } else if no_later(s.last(), x) {
        s.push(x)
    } else {
        insert_in_order(s.drop_last(), x).push(s.last())
    }
}

/// The events in time order; events at the same time and order keep the
/// order in which they were given.
pub open spec fn in_time_order(s: Seq<ScheduledEvent>) -> Seq<ScheduledEvent>
    decreases s.len(),
{
    if s.len() == 0 {
        Seq::empty()
    } else {
        insert_in_order(in_time_order(s.drop_last()), s.last())
    }
}

/// Inserting at `p` is inserting in order when the events before `p` come
/// no later than `x` and those from `p` on come later.
proof fn lemma_insert_at(s: Seq<ScheduledEvent>, x: ScheduledEvent, p: int)
    requires
        0 <= p <= s.len(),
        p > 0 ==> no_later(s[p - 1], x),
        forall|j: int| p <= j < s.len() ==> !no_later(#[trigger] s[j], x),
    ensures
        insert_in_order(s, x) == s.insert(p, x),
    decreases s.len(),
{
    if s.len() == 0 {
        assert(s.insert(p, x) =~= seq![x]);
    } else if p == s.len() {
        assert(s.insert(p, x) =~= s.push(x));
    } else {
        assert(!no_later(s[s.len() - 1], x));
        let init = s.drop_last();
        assert forall|j: int| p <= j < init.len() implies !no_later(#[trigger] init[j], x) by {
            assert(init[j] == s[j]);
        }
        if p > 0 {
            assert(init[p - 1] == s[p - 1]);
        }
        lemma_insert_at(init, x, p);
        assert(init.insert(p, x).push(s.last()) =~= s.insert(p, x));
    }
}

fn no_later_exec(a: &ScheduledEvent, b: &ScheduledEvent) -> (r: bool)
    ensures
        r == no_later(*a, *b),
{
    a.at < b.at || (a.at == b.at && a.order <= b.order)
}

/// Orders the events by time, steps before assertions at the same time,
/// keeping the given order otherwise.
pub fn schedule(events: Vec<ScheduledEvent>) -> (r: Vec<ScheduledEvent>)
    ensures
        r@ == in_time_order(events@),
{
    let ghost input = events@;
    let mut rest = events;
    let n = rest.len();
    let mut out: Vec<ScheduledEvent> = Vec::new();
    let mut k: usize = 0;
    assert(input.take(0) =~= Seq::<ScheduledEvent>::empty());
    while rest.len() > 0
        invariant
            k <= input.len(),
            k + rest@.len() == input.len(),
            n == input.len(),
            rest@ == input.skip(k as int),
            out@ == in_time_order(input.take(k as int)),
        decreases rest.len(),
    {
        let x = rest.remove(0);
        assert(x == input[k as int]);
        assert(input.take(k + 1).drop_last() =~= input.take(k as int));
        assert(input.take(k + 1).last() == x);
        assert(rest@ =~= input.skip(k + 1));
        let mut p: usize = out.len();
        while p > 0 && !no_later_exec(&out[p - 1], &x)
            invariant
                p <= out.len(),
                k < n,
                forall|j: int| p <= j < out@.len() ==> !no_later(#[trigger] out@[j], x),
            decreases p,
        {
            p = p - 1;
        }
        proof {
            lemma_insert_at(out@, x, p as int);
        }
        out.insert(p, x);
        k = k + 1;
    }
    assert(input.take(k as int) =~= input);
    out
}

// ---------------------------------------------------------------------------
// Laws of the ordering
// ---------------------------------------------------------------------------

/// The events of `s` at the same time and order as `x`, in order.
pub open spec fn same_slot(s: Seq<ScheduledEvent>, x: ScheduledEvent) -> Seq<ScheduledEvent>
    decreases s.len(),
{
    if s.len() == 0 {
        Seq::empty()
    } else {
        same_slot(s.drop_last(), x) + if s.last().at == x.at && s.last().order == x.order {
            seq![s.last()]
        } else {
            Seq::<ScheduledEvent>::empty()
        }
    }
}

pub open spec fn ordered(s: Seq<ScheduledEvent>) -> bool {
    forall|i: int, j: int| 0 <= i < j < s.len() ==> no_later(#[trigger] s[i], #[trigger] s[j])
}

proof fn lemma_insert_keeps(s: Seq<ScheduledEvent>, x: ScheduledEvent, y: ScheduledEvent)
    requires
        ordered(s),
    ensures
        ordered(insert_in_order(s, x)),
        insert_in_order(s, x).to_multiset() == s.to_multiset().insert(x),
        same_slot(insert_in_order(s, x), y) == if x.at == y.at && x.order == y.order {
            same_slot(s, y).push(x)
        } else {
            same_slot(s, y)
        },
    decreases s.len(),
{
    broadcast use vstd::multiset::group_multiset_axioms;
    broadcast use vstd::seq_lib::group_to_multiset_ensures;

    if s.len() == 0 {
        assert(insert_in_order(s, x) == seq![x]);
        assert(seq![x].drop_last() =~= Seq::<ScheduledEvent>::empty());
        assert(s.to_multiset() =~= vstd::multiset::Multiset::<ScheduledEvent>::empty());
        assert(seq![x] =~= Seq::<ScheduledEvent>::empty().push(x));
        assert(same_slot(s, y) =~= Seq::<ScheduledEvent>::empty());
        assert(same_slot(seq![x].drop_last(), y) =~= Seq::<ScheduledEvent>::empty());
        assert(seq![x].last() == x);
        if x.at == y.at && x.order == y.order {
            assert(same_slot(seq![x], y) =~= seq![x]);
            assert(same_slot(s, y).push(x) =~= seq![x]);
        } else {
            assert(same_slot(seq![x], y) =~= Seq::<ScheduledEvent>::empty());
        }
    } else if no_later(s.last(), x) {
        let r = s.push(x);
        assert(r.drop_last() =~= s);
        assert(r.last() == x);
        assert forall|i: int, j: int| 0 <= i < j < r.len() implies no_later(#[trigger] r[i], #[trigger] r[j]) by {
            if j == r.len() - 1 {
                assert(no_later(s[i], s[s.len() - 1]) || i == s.len() - 1);
            }
        }
        if x.at == y.at && x.order == y.order {
            assert(same_slot(r, y) =~= same_slot(s, y) + seq![x]);
            assert(same_slot(s, y) + seq![x] =~= same_slot(s, y).push(x));
        } else {
            assert(same_slot(r, y) =~= same_slot(s, y) + Seq::<ScheduledEvent>::empty());
        }
    } else {
        let init = s.drop_last();
        assert(ordered(init));
        lemma_insert_keeps(init, x, y);
        lemma_insert_keeps(init, x, s.last());
        let m = insert_in_order(init, x);
        let r = m.push(s.last());
        assert(r.drop_last() =~= m);
        assert(r.last() == s.last());
        assert(s =~= init.push(s.last()));
        assert forall|i: int, j: int| 0 <= i < j < r.len() implies no_later(#[trigger] r[i], #[trigger] r[j]) by {
            if j == r.len() - 1 {
                if i < m.len() {
                    assert(m.to_multiset().count(m[i]) > 0);
                    assert(init.to_multiset().insert(x).count(m[i]) > 0);
                    if m[i] != x {
                        assert(init.to_multiset().count(m[i]) > 0);
                        assert(init.contains(m[i]));
                        let k = choose|k: int| 0 <= k < init.len() && init[k] == m[i];
                        assert(s[k] == init[k]);
                    }
                }
            } else {
                assert(r[i] == m[i]);
                assert(r[j] == m[j]);
            }
        }
        let tail = if s.last().at == y.at && s.last().order == y.order {
            seq![s.last()]
        } else {
            Seq::<ScheduledEvent>::empty()
        };
        assert(same_slot(r, y) =~= same_slot(m, y) + tail);
        assert(same_slot(s, y) =~= same_slot(init, y) + tail);
        if x.at == y.at && x.order == y.order {
            assert(!(s.last().at == y.at && s.last().order == y.order)) by {
                if s.last().at == y.at && s.last().order == y.order {
                    assert(no_later(s.last(), x));
                }
            }
            assert(tail =~= Seq::<ScheduledEvent>::empty());
            assert(same_slot(r, y) =~= same_slot(s, y).push(x));
        } else {
            assert(same_slot(r, y) =~= same_slot(s, y));
        }
    }
}

/// Ordering the events gives the same events, in time order, and keeps
/// the given order of the events at the same time and order.
pub proof fn law_schedule_orders_stably(events: Seq<ScheduledEvent>, slot: ScheduledEvent)
    ensures
        ordered(in_time_order(events)),
        in_time_order(events).to_multiset() == events.to_multiset(),
        same_slot(in_time_order(events), slot) == same_slot(events, slot),
    decreases events.len(),
{
    broadcast use vstd::seq_lib::group_to_multiset_ensures;

    if events.len() == 0 {
        assert(in_time_order(events) == Seq::<ScheduledEvent>::empty());
    } else {
        let init = events.drop_last();
        law_schedule_orders_stably(init, slot);
        lemma_insert_keeps(in_time_order(init), events.last(), slot);
        assert(events =~= init.push(events.last()));
    }
}

} // verus!

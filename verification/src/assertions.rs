//! Scenario assertions evaluated against the runtime state: retained MQTT
//! state, Modbus registers, guest experience, ops escalation, target
//! conditions and the inline evidence checks (scene consistency, access
//! drift, commissioning, intercom relay safety, infrastructure faults and
//! comfort replay). Comparisons of floating-point readings are made by the
//! caller and handed in as verdicts.

use vstd::prelude::*;

use crate::json::{json_or_null, to_json_or_null, yaml_map_to_json};
use crate::mqtt::broker_online;
use crate::ops::{assertion_entries, assertion_failures, OpsError};
use crate::report::{AssertionResult, TimelineEvent};
use crate::runtime::{
    outcome, result_of, result_view, target_result, timeline_view, EventView, ResultView,
    RuntimeState, RuntimeView, ValidatedTargetConditionAssertion, target_delays_in_range, Condition,
};
use crate::device::consistency_failures;
use crate::scenario::{DeviceId, MqttTopic, SceneId};
use crate::strmap::{nested_value_views, value_maps_equal, value_views, StrMap};
use crate::text::{
    chars_of, concat2, decimal, has_prefix, join, join_seq, push_str, starts_with, str_eq,
    string_texts, to_owned, usize_to_string,
};
use crate::value::{Value, ValueView};

verus! {

/// A retained-state assertion: the payload expected at a topic.
pub struct ValidatedMqttAssertion {
    pub topic: MqttTopic,
    pub retained: StrMap<Value>,
}

/// A register assertion: an exact value, or a readable (scaled) value,
/// held by its floating-point bits, that the caller compares.
pub struct ValidatedModbusAssertion {
    pub device: DeviceId,
    pub register: u32,
    pub value: Option<Value>,
    pub readable_value: Option<u64>,
}

/// The evidence checks written inline in an assertion.
pub enum ValidatedInlineAssertionKind {
    SceneConsistencyComplete(SceneId),
    AccessControlDriftDetected,
    CommissioningChecklistGenerated,
    IntercomRelaySafeEvidence,
    NetworkControlPanelFaultsObserved,
    ComfortTimeseriesObserved,
}

/// A validated assertion.
pub enum ValidatedAssertionKind {
    MqttRetained(ValidatedMqttAssertion),
    ModbusRegister(ValidatedModbusAssertion),
    GuestExperienceField(Condition),
    Ops(StrMap<Value>),
    TargetCondition(ValidatedTargetConditionAssertion),
    Inline(ValidatedInlineAssertionKind),
}

// ---------------------------------------------------------------------------
// What the timeline and the states hold
// ---------------------------------------------------------------------------

/// Whether an event of this type is on the timeline.
pub open spec fn has_event(t: Seq<EventView>, event_type: Seq<char>) -> bool {
    exists|i: int| 0 <= i < t.len() && (#[trigger] t[i]).event_type == event_type
}

/// Whether an event whose type starts with `prefix` is on the timeline.
pub open spec fn has_event_prefix(t: Seq<EventView>, prefix: Seq<char>) -> bool {
    exists|i: int| 0 <= i < t.len() && has_prefix((#[trigger] t[i]).event_type, prefix)
}

/// How many events of this type are on the timeline.
pub open spec fn event_count(t: Seq<EventView>, event_type: Seq<char>) -> nat
    decreases t.len(),
{
    if t.len() == 0 {
        0
    } else {
        event_count(t.drop_last(), event_type) + if t.last().event_type == event_type {
            1nat
        } else {
            0nat
        }
    }
}

/// The required event types that are not on the timeline, in order.
pub open spec fn missing_events(t: Seq<EventView>, required: Seq<Seq<char>>) -> Seq<Seq<char>>
    decreases required.len(),
{
    if required.len() == 0 {
        Seq::empty()
    } else {
        missing_events(t, required.drop_last()) + if has_event(t, required.last()) {
            Seq::<Seq<char>>::empty()
        } else {
            seq![required.last()]
        }
    }
}

/// Whether some state key starts with `prefix`.
pub open spec fn has_state_prefix(states: Map<Seq<char>, Map<Seq<char>, ValueView>>, prefix: Seq<char>) -> bool {
    exists|k: Seq<char>| #[trigger] states.contains_key(k) && has_prefix(k, prefix)
}

/// Whether some state records `field` as `value`, among the states whose
/// key starts with `prefix`.
pub open spec fn has_state_field(
    states: Map<Seq<char>, Map<Seq<char>, ValueView>>,
    prefix: Seq<char>,
    field: Seq<char>,
    value: ValueView,
) -> bool {
    exists|k: Seq<char>|
        #[trigger] states.contains_key(k) && has_prefix(k, prefix) && states[k].contains_key(field)
            && states[k][field] == value
}

/// The infrastructure fault profiles whose evidence the panel check asks for.
pub open spec fn panel_fault_types() -> Seq<Seq<char>> {
    seq![
        "network_segment_isolated"@,
        "firewall_policy_drift_detected"@,
        "control_panel_ups_degraded"@,
        "control_panel_circuit_protector_tripped"@,
        "control_panel_redundant_psu_degraded"@,
    ]
}

// ---------------------------------------------------------------------------
// Results
// ---------------------------------------------------------------------------

pub open spec fn mqtt_retained_result(v: RuntimeView, topic: Seq<char>, retained: Map<Seq<char>, ValueView>) -> ResultView {
    let expected = retained.map_values(|x: ValueView| json_or_null(x));
    let passed = v.broker.retained.contains_key(topic) && v.broker.retained[topic] == expected;
    outcome(
        "mqtt_retained:"@ + topic,
        "mqtt_retained"@,
        passed,
        if passed {
            "retained MQTT state matched"@
        } else {
            "retained MQTT state mismatch"@
        },
        "high"@,
        "Local controller state did not synchronize through retained MQTT state."@,
    )
}

/// The register assertion passes on the readable verdict when it expects a
/// readable value, else when the register holds the expected value's JSON
/// form.
pub open spec fn modbus_register_result(
    v: RuntimeView,
    device: Seq<char>,
    register: u32,
    value: Option<ValueView>,
    expects_readable_value: bool,
    readable_matches: bool,
) -> ResultView {
    let passed = if expects_readable_value {
        readable_matches
    } else {
        match value {
            Some(e) => v.modbus.contains_key(device) && v.modbus[device].contains_key(register)
                && v.modbus[device][register].value == json_or_null(e),
            None => false,
        }
    };
    outcome(
        "modbus:"@ + device + ":"@ + decimal(register as nat),
        "modbus_register"@,
        passed,
        if passed {
            "Modbus register matched expected value"@
        } else {
            "Modbus register mismatch"@
        },
        "medium"@,
        "Register-map behavior did not match commissioning expectation."@,
    )
}

pub open spec fn guest_experience_field_result(v: RuntimeView, condition: Condition) -> ResultView {
    let passed = condition == Condition::Unaffected && broker_online(v.broker, "mqtt.local"@);
    outcome(
        "guest_experience"@,
        "guest_experience"@,
        passed,
        if passed {
            "guest experience remained unaffected by upstream outage"@
        } else {
            "guest experience was affected"@
        },
        "high"@,
        "Local-first control did not preserve guest experience."@,
    )
}

pub open spec fn ops_result(v: RuntimeView, entries: Seq<(Seq<char>, ValueView)>) -> ResultView {
    match assertion_failures(v.ops, entries) {
        Ok(fs) => {
            let passed = fs.len() == 0;
            outcome(
                "ops"@,
                "ops"@,
                passed,
                if passed {
                    "ops escalation matched expected state"@
                } else {
                    "ops escalation mismatch: "@ + join_seq(fs, "; "@)
                },
                "high"@,
                "Operations response did not meet the emergency alert contract."@,
            )
        },
        Err(key) => ResultView {
            name: "ops"@,
            assertion_type: "ops"@,
            passed: false,
            message: "unsupported ops assertion "@ + key,
            impact_level: Some("unknown"@),
            impact_message: Some("The ops assertion is not supported by the runner."@),
            reference_id: None,
        },
    }
}

pub open spec fn scene_consistency_result(v: RuntimeView, scene: Seq<char>) -> ResultView {
    if !v.lighting.scenes.contains_key(scene) {
        ResultView {
            name: "scene_consistency:"@ + scene,
            assertion_type: "scene_consistency"@,
            passed: false,
            message: "scene "@ + scene + " is not defined"@,
            impact_level: Some("medium"@),
            impact_message: Some("Scene mapping is missing from the scenario."@),
            reference_id: None,
        }
    } else {
        let failures = consistency_failures(v.lighting.levels, v.lighting.scenes[scene]);
        let passed = failures.len() == 0;
        outcome(
            "scene_consistency:"@ + scene,
            "scene_consistency"@,
            passed,
            if passed {
                "DALI-like scene reached expected levels"@
            } else {
                "DALI-like scene consistency violation: "@ + join_seq(failures, "; "@)
            },
            "medium"@,
            "Lighting scene did not match intended guest ambience."@,
        )
    }
}

pub open spec fn access_control_drift_result(v: RuntimeView) -> ResultView {
    let passed = v.unexpected_users.len() > 0;
    outcome(
        "access_control_drift"@,
        "access_control_drift"@,
        passed,
        if passed {
            "detected unexpected access users: "@ + join_seq(v.unexpected_users, ", "@)
        } else {
            "no unexpected access users were detected"@
        },
        "high"@,
        "Access-control drift detection did not flag stale unlock permission."@,
    )
}

pub open spec fn network_control_panel_result(v: RuntimeView) -> ResultView {
    let missing = missing_events(v.timeline, panel_fault_types());
    let passed = missing.len() == 0 && has_state_field(v.states, Seq::empty(), "bms_evidence"@, ValueView::Str("recorded"@));
    outcome(
        "network_control_panel_faults"@,
        "network_control_panel_faults"@,
        passed,
        if passed {
            "network and control-panel fault profiles produced BMS evidence"@
        } else {
            "network/control-panel fault evidence incomplete; missing: "@ + join_seq(missing, ", "@)
        },
        "medium"@,
        "Infrastructure fault QA evidence is incomplete."@,
    )
}

pub open spec fn comfort_timeseries_result(v: RuntimeView) -> ResultView {
    let count = event_count(v.timeline, "comfort_sensor_reading_recorded"@);
    let passed = count >= 2 && has_state_prefix(v.states, "comfort."@);
    outcome(
        "comfort_timeseries"@,
        "comfort_timeseries"@,
        passed,
        if passed {
            decimal(count) + " comfort sensor readings were replayed"@
        } else {
            "comfort time-series replay did not produce enough sensor evidence"@
        },
        "medium"@,
        "Comfort automation QA lacks deterministic sensor-zone evidence."@,
    )
}

pub open spec fn intercom_relay_result(v: RuntimeView) -> ResultView {
    let passed = has_event_prefix(v.timeline, "intercom_"@) && has_event(v.timeline, "relay_pulse_requested"@)
        && !has_state_field(v.states, "intercom."@, "real_unlock_controlled"@, ValueView::Bool(true));
    outcome(
        "intercom_relay_safe_evidence"@,
        "intercom_relay_safe_evidence"@,
        passed,
        if passed {
            "intercom and relay evidence was captured without controlling a real unlock"@
        } else {
            "intercom/relay safe evidence is incomplete or attempted real unlock control"@
        },
        "high"@,
        "Access-control QA evidence is not safe enough for pre-adoption PoC."@,
    )
}

pub open spec fn commissioning_result(v: RuntimeView) -> ResultView {
    let passed = v.commissioning_check_count > 0;
    outcome(
        "commissioning_checklist"@,
        "commissioning_checklist"@,
        passed,
        if passed {
            match v.commissioning_site {
                Some(site) => "generated "@ + decimal(v.commissioning_check_count as nat)
                    + " commissioning checks for "@ + site,
                None => "generated "@ + decimal(v.commissioning_check_count as nat) + " commissioning checks"@,
            }
        } else {
            "no commissioning checks were generated"@
        },
        "medium"@,
        "Commissioning checklist generation did not produce field checks."@,
    )
}

pub open spec fn inline_result(v: RuntimeView, kind: ValidatedInlineAssertionKind) -> ResultView {
    match kind {
        ValidatedInlineAssertionKind::SceneConsistencyComplete(scene) => scene_consistency_result(v, scene.0@),
        ValidatedInlineAssertionKind::AccessControlDriftDetected => access_control_drift_result(v),
        ValidatedInlineAssertionKind::CommissioningChecklistGenerated => commissioning_result(v),
        ValidatedInlineAssertionKind::IntercomRelaySafeEvidence => intercom_relay_result(v),
        ValidatedInlineAssertionKind::NetworkControlPanelFaultsObserved => network_control_panel_result(v),
        ValidatedInlineAssertionKind::ComfortTimeseriesObserved => comfort_timeseries_result(v),
    }
}

/// The result of an assertion. `float_verdict` is the caller's comparison
/// of floating-point readings: whether the register's readable value
/// matches, for a register assertion that expects one, and whether the
/// comfort metric is in range, for the comfort target.
pub open spec fn assertion_result(v: RuntimeView, a: ValidatedAssertionKind, float_verdict: bool) -> ResultView {
    match a {
        ValidatedAssertionKind::MqttRetained(m) => mqtt_retained_result(v, m.topic@, value_views(m.retained@)),
        ValidatedAssertionKind::ModbusRegister(m) => modbus_register_result(
            v,
            m.device.0@,
            m.register,
            match m.value {
                Some(x) => Some(x@),
                None => None,
            },
            m.readable_value is Some,
            float_verdict,
        ),
        ValidatedAssertionKind::GuestExperienceField(c) => guest_experience_field_result(v, c),
        ValidatedAssertionKind::Ops(m) => ops_result(v, assertion_entries(&m)),
        ValidatedAssertionKind::TargetCondition(k) => target_result(v, k, float_verdict),
        ValidatedAssertionKind::Inline(k) => inline_result(v, k),
    }
}

// ---------------------------------------------------------------------------
// Scans
// ---------------------------------------------------------------------------

fn timeline_has(timeline: &Vec<TimelineEvent>, event_type: &str) -> (b: bool)
    ensures
        b == has_event(timeline_view(timeline@), event_type@),
{
    let ghost t = timeline_view(timeline@);
    let mut i: usize = 0;
    while i < timeline.len()
        invariant
            i <= timeline.len(),
            t == timeline_view(timeline@),
            forall|j: int| 0 <= j < i ==> (#[trigger] t[j]).event_type != event_type@,
        decreases timeline.len() - i,
    {
        assert(t[i as int].event_type == timeline@[i as int].event_type@);
        if str_eq(timeline[i].event_type.as_str(), event_type) {
            return true;
        }
        i = i + 1;
    }
    false
}

fn timeline_has_prefix(timeline: &Vec<TimelineEvent>, prefix: &str) -> (b: bool)
    ensures
        b == has_event_prefix(timeline_view(timeline@), prefix@),
{
    let ghost t = timeline_view(timeline@);
    let p = chars_of(prefix);
    let mut i: usize = 0;
    while i < timeline.len()
        invariant
            i <= timeline.len(),
            t == timeline_view(timeline@),
            p@ == prefix@,
            forall|j: int| 0 <= j < i ==> !has_prefix((#[trigger] t[j]).event_type, prefix@),
        decreases timeline.len() - i,
    {
        assert(t[i as int].event_type == timeline@[i as int].event_type@);
        let chars = chars_of(timeline[i].event_type.as_str());
        if starts_with(&chars, &p) {
            return true;
        }
        i = i + 1;
    }
    false
}

fn timeline_count(timeline: &Vec<TimelineEvent>, event_type: &str) -> (n: usize)
    ensures
        n == event_count(timeline_view(timeline@), event_type@),
{
    let ghost t = timeline_view(timeline@);
    let mut n: usize = 0;
    let mut i: usize = 0;
    assert(t.take(0) =~= Seq::<EventView>::empty());
    while i < timeline.len()
        invariant
            i <= timeline.len(),
            t == timeline_view(timeline@),
            n <= i,
            n == event_count(t.take(i as int), event_type@),
        decreases timeline.len() - i,
    {
        assert(t.take(i + 1).drop_last() =~= t.take(i as int));
        assert(t.take(i + 1).last() == t[i as int]);
        if str_eq(timeline[i].event_type.as_str(), event_type) {
            n = n + 1;
        }
        i = i + 1;
    }
    assert(t.take(timeline.len() as int) =~= t);
    n
}

/// Whether some state whose key starts with `prefix` records `field` as
/// the text `text`, or, when `text` is `None`, as `true`.
fn states_have_field(states: &StrMap<StrMap<Value>>, prefix: &str, field: &str, text: Option<&str>) -> (b: bool)
    ensures
        b == has_state_field(
            nested_value_views(states@),
            prefix@,
            field@,
            match text {
                Some(s) => ValueView::Str(s@),
                None => ValueView::Bool(true),
            },
        ),
{
    let ghost m = nested_value_views(states@);
    let ghost want = match text {
        Some(s) => ValueView::Str(s@),
        None => ValueView::Bool(true),
    };
    proof {
        use_type_invariant(states);
        states.lemma_wf();
    }
    let p = chars_of(prefix);
    let n = states.len();
    let mut i: usize = 0;
    while i < n
        invariant
            i <= n,
            n == states.entry_seq().len(),
            p@ == prefix@,
            m == nested_value_views(states@),
            want == match text {
                Some(s) => ValueView::Str(s@),
                None => ValueView::Bool(true),
            },
            forall|j: int|
                0 <= j < i ==> !(has_prefix(#[trigger] states.entry_seq()[j].0, prefix@) && m[states.entry_seq()[
                    j].0].contains_key(field@) && m[states.entry_seq()[j].0][field@] == want),
            forall|j: int|
                0 <= j < states.entry_seq().len() ==> states@.contains_key(#[trigger] states.entry_seq()[j].0)
                    && states@[states.entry_seq()[j].0] == states.entry_seq()[j].1,
        decreases n - i,
    {
        let key = states.key_at(i);
        let inner = states.value_at(i);
        let ghost k = states.entry_seq()[i as int].0;
        assert(m[k] == value_views(inner@));
        let chars = chars_of(key.as_str());
        if starts_with(&chars, &p) {
            match inner.get(field) {
                Some(x) => {
                    let hit = match text {
                        Some(s) => match x.as_str() {
                            Some(xs) => {
                                let same = str_eq(xs.as_str(), s);
                                assert(x@ == ValueView::Str(xs@));
                                assert(same == (x@ == want));
                                same
                            },
                            None => {
                                assert(x@ != want);
                                false
                            },
                        },
                        None => match x.as_bool() {
                            Some(bv) => {
                                assert(x@ == ValueView::Bool(bv));
                                assert(bv == (x@ == want));
                                bv
                            },
                            None => {
                                assert(x@ != want);
                                false
                            },
                        },
                    };
                    assert(hit == (x@ == want));
                    assert(m[k].contains_key(field@) && m[k][field@] == x@);
                    if hit {
                        assert(m.contains_key(k));
                        return true;
                    }
                },
                None => {
                    assert(!m[k].contains_key(field@));
                },
            }
        } else {
            assert(!has_prefix(k, prefix@));
        }
        i = i + 1;
    }
    proof {
        assert forall|k: Seq<char>| #[trigger] m.contains_key(k) && has_prefix(k, prefix@) && m[k].contains_key(
            field@,
        ) implies m[k][field@] != want by {
            let j = choose|j: int| 0 <= j < states.entry_seq().len() && states.entry_seq()[j].0 == k;
            assert(has_prefix(states.entry_seq()[j].0, prefix@));
        }
    }
    false
}

fn states_have_prefix(states: &StrMap<StrMap<Value>>, prefix: &str) -> (b: bool)
    ensures
        b == has_state_prefix(nested_value_views(states@), prefix@),
{
    let ghost m = nested_value_views(states@);
    proof {
        use_type_invariant(states);
        states.lemma_wf();
    }
    let p = chars_of(prefix);
    let n = states.len();
    let mut i: usize = 0;
    while i < n
        invariant
            i <= n,
            n == states.entry_seq().len(),
            p@ == prefix@,
            m == nested_value_views(states@),
            forall|j: int| 0 <= j < i ==> !has_prefix(#[trigger] states.entry_seq()[j].0, prefix@),
            forall|j: int|
                0 <= j < states.entry_seq().len() ==> states@.contains_key(#[trigger] states.entry_seq()[j].0),
        decreases n - i,
    {
        let key = states.key_at(i);
        let chars = chars_of(key.as_str());
        if starts_with(&chars, &p) {
            assert(m.contains_key(states.entry_seq()[i as int].0));
            return true;
        }
        i = i + 1;
    }
    proof {
        assert forall|k: Seq<char>| #[trigger] m.contains_key(k) implies !has_prefix(k, prefix@) by {
            let j = choose|j: int| 0 <= j < states.entry_seq().len() && states.entry_seq()[j].0 == k;
        }
    }
    false
}

// ---------------------------------------------------------------------------
// Evaluation
// ---------------------------------------------------------------------------

fn result_named(
    name: String,
    assertion_type: &str,
    passed: bool,
    message: String,
    level: &str,
    impact: &str,
) -> (r: AssertionResult)
    ensures
        result_view(r) == outcome(name@, assertion_type@, passed, message@, level@, impact@),
{
    AssertionResult {
        name,
        assertion_type: to_owned(assertion_type),
        passed,
        message,
        impact_level: if passed {
            None
        } else {
            Some(to_owned(level))
        },
        impact_message: if passed {
            None
        } else {
            Some(to_owned(impact))
        },
        reference_id: None,
    }
}

/// Checks the payload retained at a topic against the expected one, both
/// in JSON form.
pub fn evaluate_mqtt_retained(runtime: &RuntimeState, mqtt: &ValidatedMqttAssertion) -> (r: AssertionResult)
    ensures
        result_view(r) == mqtt_retained_result(runtime@, mqtt.topic@, value_views(mqtt.retained@)),
{
    let expected = yaml_map_to_json(&mqtt.retained);
    let ghost want = value_views(mqtt.retained@).map_values(|x: ValueView| json_or_null(x));
    assert(value_views(expected@) =~= want);
    let passed = match runtime.broker.retained().get(mqtt.topic.as_str()) {
        Some(actual) => value_maps_equal(actual, &expected),
        None => false,
    };
    let message = if passed {
        "retained MQTT state matched"
    } else {
        "retained MQTT state mismatch"
    };
    result_named(
        concat2("mqtt_retained:", mqtt.topic.as_str()),
        "mqtt_retained",
        passed,
        to_owned(message),
        "high",
        "Local controller state did not synchronize through retained MQTT state.",
    )
}

/// Checks a register: by the caller's verdict when a readable value is
/// expected, else against the expected value's JSON form.
pub fn evaluate_modbus_register(
    runtime: &RuntimeState,
    modbus: &ValidatedModbusAssertion,
    readable_matches: bool,
) -> (r: AssertionResult)
    ensures
        result_view(r) == modbus_register_result(
            runtime@,
            modbus.device.0@,
            modbus.register,
            match modbus.value {
                Some(x) => Some(x@),
                None => None,
            },
            modbus.readable_value is Some,
            readable_matches,
        ),
{
    let passed = if modbus.readable_value.is_some() {
        readable_matches
    } else {
        match &modbus.value {
            Some(expected) => {
                let want = to_json_or_null(expected);
                match runtime.modbus.value(modbus.device.0.as_str(), modbus.register) {
                    Some(actual) => actual.equals(&want),
                    None => false,
                }
            },
            None => false,
        }
    };
    let mut name = concat2("modbus:", modbus.device.0.as_str());
    push_str(&mut name, ":");
    push_str(&mut name, crate::text::u64_to_string(modbus.register as u64).as_str());
    let message = if passed {
        "Modbus register matched expected value"
    } else {
        "Modbus register mismatch"
    };
    result_named(
        name,
        "modbus_register",
        passed,
        to_owned(message),
        "medium",
        "Register-map behavior did not match commissioning expectation.",
    )
}

/// Checks that the guest experience is unaffected: the local broker online.
pub fn evaluate_guest_experience_field(runtime: &RuntimeState, condition: Condition) -> (r: AssertionResult)
    ensures
        result_view(r) == guest_experience_field_result(runtime@, condition),
{
    let passed = condition == Condition::Unaffected && runtime.broker.is_online("mqtt.local");
    result_of(
        "guest_experience",
        "guest_experience",
        passed,
        if passed {
            "guest experience remained unaffected by upstream outage"
        } else {
            "guest experience was affected"
        },
        "high",
        "Local-first control did not preserve guest experience.",
    )
}

/// Checks the ops escalation state; an unsupported key fails with its error.
pub fn evaluate_ops(runtime: &RuntimeState, ops: &StrMap<Value>) -> (r: AssertionResult)
    ensures
        result_view(r) == ops_result(runtime@, assertion_entries(ops)),
{
    match runtime.ops.evaluate_assertion(ops) {
        Ok(outcome) => {
            let message = if outcome.passed {
                to_owned("ops escalation matched expected state")
            } else {
                concat2("ops escalation mismatch: ", join(&outcome.failures, "; ").as_str())
            };
            result_named(
                to_owned("ops"),
                "ops",
                outcome.passed,
                message,
                "high",
                "Operations response did not meet the emergency alert contract.",
            )
        },
        Err(error) => {
            let message = error.message();
            AssertionResult {
                name: to_owned("ops"),
                assertion_type: to_owned("ops"),
                passed: false,
                message,
                impact_level: Some(to_owned("unknown")),
                impact_message: Some(to_owned("The ops assertion is not supported by the runner.")),
                reference_id: None,
            }
        },
    }
}

/// Checks that every fixture of a scene reached its target level.
pub fn evaluate_scene_consistency(runtime: &RuntimeState, scene: &str) -> (r: AssertionResult)
    ensures
        result_view(r) == scene_consistency_result(runtime@, scene@),
{
    let name = concat2("scene_consistency:", scene);
    match runtime.lighting.scene_consistency_failures(scene) {
        Ok(failures) => {
            let passed = failures.len() == 0;
            let message = if passed {
                to_owned("DALI-like scene reached expected levels")
            } else {
                concat2("DALI-like scene consistency violation: ", join(&failures, "; ").as_str())
            };
            proof {
                assert(string_texts(failures@) == failures@.map_values(|m: String| m@));
            }
            result_named(
                name,
                "scene_consistency",
                passed,
                message,
                "medium",
                "Lighting scene did not match intended guest ambience.",
            )
        },
        Err(_) => {
            let mut message = concat2("scene ", scene);
            push_str(&mut message, " is not defined");
            AssertionResult {
                name,
                assertion_type: to_owned("scene_consistency"),
                passed: false,
                message,
                impact_level: Some(to_owned("medium")),
                impact_message: Some(to_owned("Scene mapping is missing from the scenario.")),
                reference_id: None,
            }
        },
    }
}

/// Checks that access drift was detected: some unexpected user.
pub fn evaluate_access_control_drift(runtime: &RuntimeState) -> (r: AssertionResult)
    ensures
        result_view(r) == access_control_drift_result(runtime@),
{
    let passed = runtime.unexpected_users.len() > 0;
    let message = if passed {
        concat2("detected unexpected access users: ", join(&runtime.unexpected_users, ", ").as_str())
    } else {
        to_owned("no unexpected access users were detected")
    };
    result_named(
        to_owned("access_control_drift"),
        "access_control_drift",
        passed,
        message,
        "high",
        "Access-control drift detection did not flag stale unlock permission.",
    )
}

/// Checks that every infrastructure fault profile left its event and some
/// device recorded BMS evidence.
pub fn evaluate_network_control_panel_faults(runtime: &RuntimeState) -> (r: AssertionResult)
    ensures
        result_view(r) == network_control_panel_result(runtime@),
{
    let ghost t = timeline_view(runtime.timeline@);
    let names = [
        "network_segment_isolated",
        "firewall_policy_drift_detected",
        "control_panel_ups_degraded",
        "control_panel_circuit_protector_tripped",
        "control_panel_redundant_psu_degraded",
    ];
    let ghost req = panel_fault_types();
    proof {
        reveal_strlit("network_segment_isolated");
        reveal_strlit("firewall_policy_drift_detected");
        reveal_strlit("control_panel_ups_degraded");
        reveal_strlit("control_panel_circuit_protector_tripped");
        reveal_strlit("control_panel_redundant_psu_degraded");
    }
    let mut missing: Vec<String> = Vec::new();
    let mut i: usize = 0;
    assert(req.take(0) =~= Seq::<Seq<char>>::empty());
    while i < 5
        invariant
            i <= 5,
            req == panel_fault_types(),
            t == timeline_view(runtime.timeline@),
            forall|j: int| 0 <= j < 5 ==> names@[j]@ == req[j],
            string_texts(missing@) == missing_events(t, req.take(i as int)),
        decreases 5 - i,
    {
        assert(req.take(i + 1).drop_last() =~= req.take(i as int));
        assert(req.take(i + 1).last() == req[i as int]);
        let ghost before = string_texts(missing@);
        if !timeline_has(&runtime.timeline, names[i]) {
            missing.push(to_owned(names[i]));
            assert(string_texts(missing@) =~= before + seq![req[i as int]]);
        } else {
            assert(before + Seq::<Seq<char>>::empty() =~= before);
        }
        i = i + 1;
    }
    assert(req.take(5) =~= req);
    let evidence = states_have_field(&runtime.states, "", "bms_evidence", Some("recorded"));
    proof {
        reveal_strlit("");
        assert(""@ =~= Seq::<char>::empty());
    }
    let passed = missing.len() == 0 && evidence;
    assert(passed == (missing_events(t, req).len() == 0 && has_state_field(
        runtime@.states,
        Seq::empty(),
        "bms_evidence"@,
        ValueView::Str("recorded"@),
    )));
    let message = if passed {
        to_owned("network and control-panel fault profiles produced BMS evidence")
    } else {
        concat2("network/control-panel fault evidence incomplete; missing: ", join(&missing, ", ").as_str())
    };
    result_named(
        to_owned("network_control_panel_faults"),
        "network_control_panel_faults",
        passed,
        message,
        "medium",
        "Infrastructure fault QA evidence is incomplete.",
    )
}

/// Checks that at least two comfort readings were replayed into some
/// comfort state.
pub fn evaluate_comfort_timeseries(runtime: &RuntimeState) -> (r: AssertionResult)
    ensures
        result_view(r) == comfort_timeseries_result(runtime@),
{
    let count = timeline_count(&runtime.timeline, "comfort_sensor_reading_recorded");
    let has_state = states_have_prefix(&runtime.states, "comfort.");
    let passed = count >= 2 && has_state;
    let message = if passed {
        concat2(usize_to_string(count).as_str(), " comfort sensor readings were replayed")
    } else {
        to_owned("comfort time-series replay did not produce enough sensor evidence")
    };
    result_named(
        to_owned("comfort_timeseries"),
        "comfort_timeseries",
        passed,
        message,
        "medium",
        "Comfort automation QA lacks deterministic sensor-zone evidence.",
    )
}

/// Checks that intercom and relay evidence was captured and no intercom
/// state says a real unlock was controlled.
pub fn evaluate_intercom_relay_evidence(runtime: &RuntimeState) -> (r: AssertionResult)
    ensures
        result_view(r) == intercom_relay_result(runtime@),
{
    let has_intercom_event = timeline_has_prefix(&runtime.timeline, "intercom_");
    let has_relay_request = timeline_has(&runtime.timeline, "relay_pulse_requested");
    let real_unlock = states_have_field(&runtime.states, "intercom.", "real_unlock_controlled", None);
    let passed = has_intercom_event && has_relay_request && !real_unlock;
    result_of(
        "intercom_relay_safe_evidence",
        "intercom_relay_safe_evidence",
        passed,
        if passed {
            "intercom and relay evidence was captured without controlling a real unlock"
        } else {
            "intercom/relay safe evidence is incomplete or attempted real unlock control"
        },
        "high",
        "Access-control QA evidence is not safe enough for pre-adoption PoC.",
    )
}

/// Checks that the commissioning checklist has checks, naming the site.
pub fn evaluate_commissioning_checklist(runtime: &RuntimeState) -> (r: AssertionResult)
    ensures
        result_view(r) == commissioning_result(runtime@),
{
    let passed = runtime.commissioning_check_count > 0;
    let message = if passed {
        let mut m = concat2("generated ", usize_to_string(runtime.commissioning_check_count).as_str());
        match &runtime.commissioning_site {
            Some(site) => {
                push_str(&mut m, " commissioning checks for ");
                push_str(&mut m, site.as_str());
            },
            None => {
                push_str(&mut m, " commissioning checks");
            },
        }
        m
    } else {
        to_owned("no commissioning checks were generated")
    };
    result_named(
        to_owned("commissioning_checklist"),
        "commissioning_checklist",
        passed,
        message,
        "medium",
        "Commissioning checklist generation did not produce field checks.",
    )
}

/// Evaluates an inline evidence check.
pub fn evaluate_inline_assertion(runtime: &RuntimeState, kind: &ValidatedInlineAssertionKind) -> (r: AssertionResult)
    ensures
        result_view(r) == inline_result(runtime@, *kind),
{
    match kind {
        ValidatedInlineAssertionKind::SceneConsistencyComplete(scene) => evaluate_scene_consistency(
            runtime,
            scene.0.as_str(),
        ),
        ValidatedInlineAssertionKind::AccessControlDriftDetected => evaluate_access_control_drift(runtime),
        ValidatedInlineAssertionKind::CommissioningChecklistGenerated => evaluate_commissioning_checklist(
            runtime,
        ),
        ValidatedInlineAssertionKind::IntercomRelaySafeEvidence => evaluate_intercom_relay_evidence(runtime),
        ValidatedInlineAssertionKind::NetworkControlPanelFaultsObserved => evaluate_network_control_panel_faults(
            runtime,
        ),
        ValidatedInlineAssertionKind::ComfortTimeseriesObserved => evaluate_comfort_timeseries(runtime),
    }
}

/// The failover delay an assertion reads, if it reads one, fits the
/// duration range of times.
pub open spec fn assertion_delays_in_range(v: RuntimeView, a: ValidatedAssertionKind) -> bool {
    match a {
        ValidatedAssertionKind::TargetCondition(k) => target_delays_in_range(v, k),
        _ => true,
    }
}

/// Evaluates an assertion against the runtime. `float_verdict` is the
/// caller's comparison of floating-point readings, used by a register
/// assertion that expects a readable value and by the comfort target.
pub fn evaluate_assertion(runtime: &RuntimeState, assertion: &ValidatedAssertionKind, float_verdict: bool) -> (r:
    AssertionResult)
    requires
        assertion_delays_in_range(runtime@, *assertion),
    ensures
        result_view(r) == assertion_result(runtime@, *assertion, float_verdict),
{
    match assertion {
        ValidatedAssertionKind::MqttRetained(mqtt) => evaluate_mqtt_retained(runtime, mqtt),
        ValidatedAssertionKind::ModbusRegister(modbus) => evaluate_modbus_register(runtime, modbus, float_verdict),
        ValidatedAssertionKind::GuestExperienceField(condition) => evaluate_guest_experience_field(
            runtime,
            *condition,
        ),
        ValidatedAssertionKind::Ops(ops) => evaluate_ops(runtime, ops),
        ValidatedAssertionKind::TargetCondition(kind) => runtime.evaluate_target_condition(kind, float_verdict),
        ValidatedAssertionKind::Inline(kind) => evaluate_inline_assertion(runtime, kind),
    }
}

/// The retained-state assertion passes exactly when the broker retains a
/// payload at the topic whose keys are the expected ones, each holding the
/// expected value in its JSON form: any other retained payload, or none,
/// fails it.
pub proof fn law_retained_assertion_compares_payloads(
    v: RuntimeView,
    topic: Seq<char>,
    retained: Map<Seq<char>, ValueView>,
)
    ensures
        mqtt_retained_result(v, topic, retained).passed <==> (v.broker.retained.contains_key(topic)
            && v.broker.retained[topic].dom() == retained.dom() && forall|k: Seq<char>|
            #[trigger] retained.contains_key(k) ==> v.broker.retained[topic][k] == json_or_null(retained[k])),
{
    let expected = retained.map_values(|x: ValueView| json_or_null(x));
    if v.broker.retained.contains_key(topic) && v.broker.retained[topic].dom() == retained.dom() && forall|
        k: Seq<char>,
    | #[trigger] retained.contains_key(k) ==> v.broker.retained[topic][k] == json_or_null(retained[k]) {
        assert(v.broker.retained[topic] =~= expected);
    }
    if mqtt_retained_result(v, topic, retained).passed {
        assert(v.broker.retained[topic] == expected);
        assert(v.broker.retained[topic].dom() =~= retained.dom());
    }
}

} // verus!

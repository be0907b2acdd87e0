//! Scenario steps and assertions as a scenario file writes them, and which
//! kind each one is: a step names exactly one action, an assertion one
//! condition (checked in a fixed order of precedence).

use vstd::prelude::*;

use crate::runtime::{IntercomStep, MqttPublishStep};
use crate::scenario::{FaultStep, ScenarioError};
use crate::strmap::StrMap;
use crate::text::{chars_of, has_prefix, starts_with, str_eq};
use crate::value::{view_bool, view_str, Value, ValueView};

verus! {

/// A device command as written.
pub struct CommandDef {
    pub target: String,
    pub action: String,
    pub value: Option<Value>,
}

/// A register write as written.
pub struct ModbusWriteDef {
    pub device: String,
    pub register: u32,
    pub value: Value,
}

/// A contact change as written.
pub struct ContactDef {
    pub id: String,
    pub state: String,
}

/// A scenario step as written: a time and the actions it names. A sensor
/// reading is held by its target; its readings are taken by the caller.
pub struct StepDef {
    pub at: String,
    pub event: Option<String>,
    pub command: Option<CommandDef>,
    pub modbus_write: Option<ModbusWriteDef>,
    pub mqtt_publish: Option<MqttPublishStep>,
    pub fault: Option<FaultStep>,
    pub contact: Option<ContactDef>,
    pub intercom: Option<IntercomStep>,
    pub sensor_reading: Option<String>,
    pub ops: Option<StrMap<Value>>,
    pub automation: Option<StrMap<Value>>,
}

/// The action a step names.
#[derive(Debug, Clone, Copy, PartialEq, Eq, Structural)]
pub enum StepTag {
    Event,
    Command,
    ModbusWrite,
    MqttPublish,
    Fault,
    Contact,
    Intercom,
    SensorReading,
    Ops,
    Automation,
}

pub open spec fn add_if(t: Seq<StepTag>, c: bool, x: StepTag) -> Seq<StepTag> {
    if c {
        t.push(x)
    } else {
        t
    }
}

/// The actions a step names, in the order they are looked at.
pub open spec fn step_tags(s: StepDef) -> Seq<StepTag> {
    let t = add_if(Seq::empty(), s.event is Some, StepTag::Event);
    let t = add_if(t, s.command is Some, StepTag::Command);
    let t = add_if(t, s.modbus_write is Some, StepTag::ModbusWrite);
    let t = add_if(t, s.mqtt_publish is Some, StepTag::MqttPublish);
    let t = add_if(t, s.fault is Some, StepTag::Fault);
    let t = add_if(t, s.contact is Some, StepTag::Contact);
    let t = add_if(t, s.intercom is Some, StepTag::Intercom);
    let t = add_if(t, s.sensor_reading is Some, StepTag::SensorReading);
    let t = add_if(t, s.ops is Some, StepTag::Ops);
    add_if(t, s.automation is Some, StepTag::Automation)
}

fn push_if(tags: &mut Vec<StepTag>, c: bool, x: StepTag)
    ensures
        final(tags)@ == add_if(old(tags)@, c, x),
{
    if c {
        tags.push(x);
    }
}

/// The action of a step that names exactly one; any other step is refused.
pub fn step_tag(step: &StepDef) -> (r: Result<StepTag, ScenarioError>)
    ensures
        match r {
            Ok(t) => step_tags(*step) == seq![t],
            Err(e) => e == ScenarioError::InvalidStepKind && step_tags(*step).len() != 1,
        },
{
    let mut tags: Vec<StepTag> = Vec::new();
    push_if(&mut tags, step.event.is_some(), StepTag::Event);
    push_if(&mut tags, step.command.is_some(), StepTag::Command);
    push_if(&mut tags, step.modbus_write.is_some(), StepTag::ModbusWrite);
    push_if(&mut tags, step.mqtt_publish.is_some(), StepTag::MqttPublish);
    push_if(&mut tags, step.fault.is_some(), StepTag::Fault);
    push_if(&mut tags, step.contact.is_some(), StepTag::Contact);
    push_if(&mut tags, step.intercom.is_some(), StepTag::Intercom);
    push_if(&mut tags, step.sensor_reading.is_some(), StepTag::SensorReading);
    push_if(&mut tags, step.ops.is_some(), StepTag::Ops);
    push_if(&mut tags, step.automation.is_some(), StepTag::Automation);
    assert(tags@ == step_tags(*step));
    if tags.len() != 1 {
        return Err(ScenarioError::InvalidStepKind);
    }
    let t = tags[0];
    assert(tags@ =~= seq![t]);
    Ok(t)
}

/// A retained-state assertion as written.
pub struct MqttAssertionDef {
    pub topic: String,
    pub retained: StrMap<Value>,
}

/// A register assertion as written; a readable value is held by whether
/// it is given, and compared by the caller.
pub struct ModbusAssertionDef {
    pub device: String,
    pub register: u32,
    pub value: Option<Value>,
    pub has_readable_value: bool,
}

/// An assertion as written: a time, an optional evidence name and the
/// conditions it names.
pub struct AssertionDef {
    pub at: String,
    pub name: Option<String>,
    pub target: Option<String>,
    pub condition: Option<Value>,
    pub mqtt: Option<MqttAssertionDef>,
    pub modbus: Option<ModbusAssertionDef>,
    pub guest_experience: Option<String>,
    pub ops: Option<StrMap<Value>>,
    pub inline_assert: Option<StrMap<Value>>,
}

/// The target conditions an assertion can name.
#[derive(Debug, Clone, Copy, PartialEq, Eq, Structural)]
pub enum TargetConditionTag {
    EdgeSecondaryActive,
    MqttLocalAvailable,
    WanBackupActive,
    LivingAreaDiscomfortIndex,
    UserOverrideFalse,
    GuestExperienceUnaffected,
}

/// The inline evidence checks an assertion can name.
#[derive(Debug, Clone, Copy, PartialEq, Eq, Structural)]
pub enum InlineTag {
    SceneConsistencyComplete,
    AccessControlDriftDetected,
    CommissioningChecklistGenerated,
    IntercomRelaySafeEvidence,
    NetworkControlPanelFaultsObserved,
    ComfortTimeseriesObserved,
}

/// The condition an assertion names.
#[derive(Debug, Clone, Copy, PartialEq, Eq, Structural)]
pub enum AssertionTag {
    MqttRetained,
    ModbusRegister,
    GuestExperienceField,
    Ops,
    TargetCondition(TargetConditionTag),
    Inline(InlineTag),
}

/// A condition's text, or nothing when it is not text.
pub open spec fn condition_text(c: ValueView) -> Seq<char> {
    match view_str(c) {
        Some(s) => s,
        None => Seq::empty(),
    }
}

/// Which target condition a target and condition name.
pub open spec fn target_condition_of(target: Seq<char>, c: ValueView) -> Option<TargetConditionTag> {
    let text = condition_text(c);
    if target == "edge.secondary"@ && text == "active"@ {
        Some(TargetConditionTag::EdgeSecondaryActive)
    } else if target == "mqtt.local"@ && text == "available"@ {
        Some(TargetConditionTag::MqttLocalAvailable)
    } else if target == "wan.backup"@ && text == "active"@ {
        Some(TargetConditionTag::WanBackupActive)
    } else if target == "living_area.discomfort_index"@ && has_prefix(text, "between "@) {
        Some(TargetConditionTag::LivingAreaDiscomfortIndex)
    } else if target == "user_override"@ && (view_bool(c) == Some(false) || text == "false"@) {
        Some(TargetConditionTag::UserOverrideFalse)
    } else if target == "guest_experience"@ && text == "unaffected"@ {
        Some(TargetConditionTag::GuestExperienceUnaffected)
    } else {
        None
    }
}

/// Which target condition a target and condition name; another pair is
/// refused.
pub fn typed_target_condition(target: &str, condition: &Value) -> (r: Result<TargetConditionTag, ScenarioError>)
    ensures
        match target_condition_of(target@, condition@) {
            Some(t) => r == Ok::<TargetConditionTag, ScenarioError>(t),
            None => r == Err::<TargetConditionTag, ScenarioError>(ScenarioError::InvalidAssertionKind),
        },
{
    let text: String = match condition.as_str() {
        Some(s) => s.clone(),
        None => String::new(),
    };
    let t = text.as_str();
    let prefix = chars_of("between ");
    if str_eq(target, "edge.secondary") && str_eq(t, "active") {
        Ok(TargetConditionTag::EdgeSecondaryActive)
    } else if str_eq(target, "mqtt.local") && str_eq(t, "available") {
        Ok(TargetConditionTag::MqttLocalAvailable)
    } else if str_eq(target, "wan.backup") && str_eq(t, "active") {
        Ok(TargetConditionTag::WanBackupActive)
    } else if str_eq(target, "living_area.discomfort_index") && starts_with(&chars_of(t), &prefix) {
        Ok(TargetConditionTag::LivingAreaDiscomfortIndex)
    } else if str_eq(target, "user_override") && (match condition.as_bool() {
        Some(b) => !b,
        None => false,
    } || str_eq(t, "false")) {
        Ok(TargetConditionTag::UserOverrideFalse)
    } else if str_eq(target, "guest_experience") && str_eq(t, "unaffected") {
        Ok(TargetConditionTag::GuestExperienceUnaffected)
    } else {
        Err(ScenarioError::InvalidAssertionKind)
    }
}

/// The text a map holds under `key`.
pub open spec fn text_at(m: Map<Seq<char>, Value>, key: Seq<char>) -> Option<Seq<char>> {
    if m.contains_key(key) {
        view_str(m[key]@)
    } else {
        None
    }
}

/// Which inline check a map names, in order of precedence.
pub open spec fn inline_of(m: Map<Seq<char>, Value>) -> Option<InlineTag> {
    if text_at(m, "scene"@) is Some && text_at(m, "consistency"@) == Some("complete"@) {
        Some(InlineTag::SceneConsistencyComplete)
    } else if text_at(m, "access_control_drift"@) == Some("detected"@) {
        Some(InlineTag::AccessControlDriftDetected)
    } else if text_at(m, "commissioning_checklist"@) == Some("generated"@) {
        Some(InlineTag::CommissioningChecklistGenerated)
    } else if text_at(m, "intercom_relay"@) == Some("safe_evidence"@) {
        Some(InlineTag::IntercomRelaySafeEvidence)
    } else if text_at(m, "network_control_panel_faults"@) == Some("observed"@) {
        Some(InlineTag::NetworkControlPanelFaultsObserved)
    } else if text_at(m, "comfort_timeseries"@) == Some("observed"@) {
        Some(InlineTag::ComfortTimeseriesObserved)
    } else {
        None
    }
}

fn text_is(m: &StrMap<Value>, key: &str, expected: &str) -> (b: bool)
    ensures
        b == (text_at(m@, key@) == Some(expected@)),
{
    match m.get(key) {
        Some(v) => match v.as_str() {
            Some(s) => str_eq(s.as_str(), expected),
            None => false,
        },
        None => false,
    }
}

/// Which inline check a map names, with the scene it names for a scene
/// check; a map that names none is refused.
pub fn typed_inline_assertion(inline: &StrMap<Value>) -> (r: Result<(InlineTag, Option<String>), ScenarioError>)
    ensures
        match inline_of(inline@) {
            Some(t) => r matches Ok((tag, scene)) && tag == t && crate::report::opt_chars(scene) == if t
                == InlineTag::SceneConsistencyComplete {
                text_at(inline@, "scene"@)
            } else {
                None
            },
            None => r matches Err(e) && e == ScenarioError::InvalidAssertionKind,
        },
{
    match inline.get("scene") {
        Some(v) => match v.as_str() {
            Some(scene) => {
                if text_is(inline, "consistency", "complete") {
                    return Ok((InlineTag::SceneConsistencyComplete, Some(scene.clone())));
                }
            },
            None => {},
        },
        None => {},
    }
    if text_is(inline, "access_control_drift", "detected") {
        Ok((InlineTag::AccessControlDriftDetected, None))
    } else if text_is(inline, "commissioning_checklist", "generated") {
        Ok((InlineTag::CommissioningChecklistGenerated, None))
    } else if text_is(inline, "intercom_relay", "safe_evidence") {
        Ok((InlineTag::IntercomRelaySafeEvidence, None))
    } else if text_is(inline, "network_control_panel_faults", "observed") {
        Ok((InlineTag::NetworkControlPanelFaultsObserved, None))
    } else if text_is(inline, "comfort_timeseries", "observed") {
        Ok((InlineTag::ComfortTimeseriesObserved, None))
    } else {
        Err(ScenarioError::InvalidAssertionKind)
    }
}

/// How many conditions an assertion names; a target counts only with a
/// condition.
pub open spec fn condition_count(a: AssertionDef) -> nat {
    (if a.mqtt is Some { 1nat } else { 0nat }) + (if a.modbus is Some { 1nat } else { 0nat }) + (
    if a.guest_experience is Some { 1nat } else { 0nat }) + (if a.ops is Some { 1nat } else { 0nat }) + (
    if a.target is Some && a.condition is Some { 1nat } else { 0nat }) + (if a.inline_assert is Some {
        1nat
    } else {
        0nat
    })
}

/// The condition an assertion names, in order of precedence: retained
/// state, register, guest experience (only `unaffected`), ops, target
/// condition, inline check.
pub open spec fn assertion_tag_of(a: AssertionDef) -> Option<AssertionTag> {
    if a.mqtt is Some {
        Some(AssertionTag::MqttRetained)
    } else if a.modbus is Some {
        Some(AssertionTag::ModbusRegister)
    } else if a.guest_experience is Some {
        if a.guest_experience->Some_0@ == "unaffected"@ {
            Some(AssertionTag::GuestExperienceField)
        } else {
            None
        }
    } else if a.ops is Some {
        Some(AssertionTag::Ops)
    } else if a.target is Some && a.condition is Some {
        match target_condition_of(a.target->Some_0@, a.condition->Some_0@) {
            Some(t) => Some(AssertionTag::TargetCondition(t)),
            None => None,
        }
    } else if a.inline_assert is Some {
        match inline_of(a.inline_assert->Some_0@) {
            Some(t) => Some(AssertionTag::Inline(t)),
            None => None,
        }
    } else {
        None
    }
}

/// The condition an assertion names, with the scene of a scene check. An
/// assertion must name exactly one condition, and that one must be known.
pub fn assertion_tag(a: &AssertionDef) -> (r: Result<(AssertionTag, Option<String>), ScenarioError>)
    ensures
        match r {
            Ok((t, scene)) => condition_count(*a) == 1 && assertion_tag_of(*a) == Some(t) && (t
                == AssertionTag::Inline(InlineTag::SceneConsistencyComplete) ==> crate::report::opt_chars(scene)
                == text_at(a.inline_assert->Some_0@, "scene"@)),
            Err(e) => e == ScenarioError::InvalidAssertionKind && (condition_count(*a) != 1 || assertion_tag_of(
                *a,
            ) is None),
        },
{
    let mut count: usize = 0;
    if a.mqtt.is_some() {
        count = count + 1;
    }
    if a.modbus.is_some() {
        count = count + 1;
    }
    if a.guest_experience.is_some() {
        count = count + 1;
    }
    if a.ops.is_some() {
        count = count + 1;
    }
    if a.target.is_some() && a.condition.is_some() {
        count = count + 1;
    }
    if a.inline_assert.is_some() {
        count = count + 1;
    }
    if count != 1 {
        return Err(ScenarioError::InvalidAssertionKind);
    }
    if a.mqtt.is_some() {
        return Ok((AssertionTag::MqttRetained, None));
    }
    if a.modbus.is_some() {
        return Ok((AssertionTag::ModbusRegister, None));
    }
    match &a.guest_experience {
        Some(g) => {
            if str_eq(g.as_str(), "unaffected") {
                return Ok((AssertionTag::GuestExperienceField, None));
            }
            return Err(ScenarioError::InvalidAssertionKind);
        },
        None => {},
    }
    if a.ops.is_some() {
        return Ok((AssertionTag::Ops, None));
    }
    match (&a.target, &a.condition) {
        (Some(target), Some(condition)) => {
            return match typed_target_condition(target.as_str(), condition) {
                Ok(t) => Ok((AssertionTag::TargetCondition(t), None)),
                Err(e) => Err(e),
            };
        },
        _ => {},
    }
    match &a.inline_assert {
        Some(inline) => match typed_inline_assertion(inline) {
            Ok((t, scene)) => Ok((AssertionTag::Inline(t), scene)),
            Err(e) => Err(e),
        },
        None => Err(ScenarioError::InvalidAssertionKind),
    }
}

} // verus!

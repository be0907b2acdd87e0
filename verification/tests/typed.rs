use roomci::scenario::ScenarioError;
use roomci::strmap::StrMap;
use roomci::typed::{
    assertion_tag, step_tag, typed_inline_assertion, typed_target_condition, AssertionDef, AssertionTag,
    CommandDef, InlineTag, StepDef, StepTag, TargetConditionTag,
};
use roomci::value::Value;

fn text(s: &str) -> Value {
    Value::Str(s.to_string())
}

fn step() -> StepDef {
    StepDef {
        at: "T".to_string(),
        event: None,
        command: None,
        modbus_write: None,
        mqtt_publish: None,
        fault: None,
        contact: None,
        intercom: None,
        sensor_reading: None,
        ops: None,
        automation: None,
    }
}

fn assertion() -> AssertionDef {
    AssertionDef {
        at: "T+1s".to_string(),
        name: None,
        target: None,
        condition: None,
        mqtt: None,
        modbus: None,
        guest_experience: None,
        ops: None,
        inline_assert: None,
    }
}

#[test]
fn rejects_step_with_no_action() {
    assert_eq!(step_tag(&step()), Err(ScenarioError::InvalidStepKind));
}

#[test]
fn rejects_step_with_multiple_actions() {
    let mut s = step();
    s.event = Some("no-op".to_string());
    s.command = Some(CommandDef { target: "scene.welcome".to_string(), action: "activate".to_string(), value: None });
    assert_eq!(step_tag(&s), Err(ScenarioError::InvalidStepKind));
    s.event = None;
    assert_eq!(step_tag(&s), Ok(StepTag::Command));
    let mut s = step();
    s.sensor_reading = Some("living_area".to_string());
    assert_eq!(step_tag(&s), Ok(StepTag::SensorReading));
}

#[test]
fn rejects_unknown_target_condition_assertion() {
    let mut a = assertion();
    a.target = Some("imaginary.subsystem".to_string());
    a.condition = Some(text("active"));
    assert_eq!(assertion_tag(&a), Err(ScenarioError::InvalidAssertionKind));
}

#[test]
fn target_conditions_are_read_from_target_and_condition() {
    assert_eq!(typed_target_condition("edge.secondary", &text("active")), Ok(TargetConditionTag::EdgeSecondaryActive));
    assert_eq!(typed_target_condition("mqtt.local", &text("available")), Ok(TargetConditionTag::MqttLocalAvailable));
    assert_eq!(
        typed_target_condition("living_area.discomfort_index", &text("between 0.5 and 0.7")),
        Ok(TargetConditionTag::LivingAreaDiscomfortIndex)
    );
    assert_eq!(typed_target_condition("user_override", &Value::Bool(false)), Ok(TargetConditionTag::UserOverrideFalse));
    assert_eq!(typed_target_condition("user_override", &text("false")), Ok(TargetConditionTag::UserOverrideFalse));
    assert_eq!(
        typed_target_condition("user_override", &Value::Bool(true)),
        Err(ScenarioError::InvalidAssertionKind)
    );
    assert_eq!(typed_target_condition("wan.backup", &text("standby")), Err(ScenarioError::InvalidAssertionKind));
}

#[test]
fn inline_assertions_follow_precedence() {
    let mut m = StrMap::new();
    m.insert("access_control_drift".to_string(), text("detected"));
    m.insert("scene".to_string(), text("welcome"));
    m.insert("consistency".to_string(), text("complete"));
    assert_eq!(
        typed_inline_assertion(&m),
        Ok((InlineTag::SceneConsistencyComplete, Some("welcome".to_string())))
    );
    m.insert("consistency".to_string(), text("partial"));
    assert_eq!(typed_inline_assertion(&m), Ok((InlineTag::AccessControlDriftDetected, None)));
    assert_eq!(typed_inline_assertion(&StrMap::new()), Err(ScenarioError::InvalidAssertionKind));
}

#[test]
fn assertions_name_exactly_one_condition() {
    let mut a = assertion();
    a.guest_experience = Some("unaffected".to_string());
    assert_eq!(assertion_tag(&a), Ok((AssertionTag::GuestExperienceField, None)));
    a.ops = Some(StrMap::new());
    assert_eq!(assertion_tag(&a), Err(ScenarioError::InvalidAssertionKind));
    let mut a = assertion();
    a.guest_experience = Some("affected".to_string());
    assert_eq!(assertion_tag(&a), Err(ScenarioError::InvalidAssertionKind));
    let mut a = assertion();
    a.target = Some("mqtt.local".to_string());
    assert_eq!(assertion_tag(&a), Err(ScenarioError::InvalidAssertionKind));
    a.condition = Some(text("available"));
    assert_eq!(
        assertion_tag(&a),
        Ok((AssertionTag::TargetCondition(TargetConditionTag::MqttLocalAvailable), None))
    );
}

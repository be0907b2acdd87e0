//! Scenario contract checks: identifiers, MQTT topics and topic templates,
//! command and sensor targets, and the fault catalogue.

use vstd::prelude::*;

use crate::device::DeviceModelError;
use crate::edge::EdgeError;
use crate::ops::OpsError;
use crate::text::{
    char_is_whitespace, chars_of, concat2, contains_seq, has_prefix, has_whitespace, is_blank,
    is_whitespace, push_str, seq_contains_char, seq_has_whitespace, seq_is_blank, starts_with,
    str_eq, string_from_subrange, to_owned,
};

verus! {

/// Errors of loading or validating a scenario or an adapter contract.
#[derive(Debug, PartialEq, Eq)]
pub enum ScenarioError {
    Read { path: String, source: String },
    Parse { path: String, reason: String },
    InvalidRelativeTime(String),
    InvalidDuration(String),
    UnknownDevice(String),
    InvalidStepKind,
    InvalidFaultKind { target: String, fault_type: String },
    InvalidAssertionKind,
    InvalidSensorReading(String),
    InvalidIdentifier { field: String, value: String },
    InvalidMqttTopic { field: String, value: String, reason: String },
    UnsupportedMqttAdapter(String),
    MissingMqttTopicMapping(String),
    AmbiguousMqttMapping(String),
    UnsupportedMqttDeviceIdStrategy(String, String),
    InvalidAdapterContract(String),
    InvalidScenarioVersion { version: String, reason: String },
    ScenarioContract { field: String, reason: String },
    DeviceModel(DeviceModelError),
    Edge(EdgeError),
    Ops(OpsError),
}

impl ScenarioError {
    /// The human-readable message of the error.
    pub fn message(&self) -> (m: String)
        ensures
            match self {
                ScenarioError::Read { path, source } => m@ == "failed to read scenario "@ + path@
                    + ": "@ + source@,
                ScenarioError::Parse { path, reason } => m@ == "failed to parse scenario "@ + path@
                    + ": "@ + reason@,
                ScenarioError::InvalidRelativeTime(s) => m@ == "invalid relative time expression "@
                    + s@,
                ScenarioError::InvalidDuration(s) => m@ == "invalid duration "@ + s@,
                ScenarioError::UnknownDevice(s) => m@ == "unknown device target "@ + s@,
                ScenarioError::InvalidStepKind => m@ == "step must contain a supported action"@,
                ScenarioError::InvalidFaultKind { target, fault_type } => m@
                    == "unsupported fault target/type combination: "@ + target@ + " "@
                    + fault_type@,
                ScenarioError::InvalidAssertionKind => m@
                    == "assertion must contain a supported condition"@,
                ScenarioError::InvalidSensorReading(s) => m@ == "invalid sensor reading: "@ + s@,
                ScenarioError::InvalidIdentifier { field, value } => m@ == "invalid identifier "@
                    + field@ + ": "@ + value@,
                ScenarioError::InvalidMqttTopic { field, value, reason } => m@
                    == "invalid MQTT topic "@ + field@ + ": "@ + value@ + " ("@ + reason@ + ")"@,
                ScenarioError::UnsupportedMqttAdapter(s) => m@
                    == "unsupported MQTT adapter declaration "@ + s@,
                ScenarioError::MissingMqttTopicMapping(s) => m@ == "MQTT contract "@ + s@
                    + " is missing command_topic or state_topic"@,
                ScenarioError::AmbiguousMqttMapping(s) => m@
                    == "ambiguous MQTT command topic mapping "@ + s@,
                ScenarioError::UnsupportedMqttDeviceIdStrategy(name, strategy) => m@
                    == "MQTT contract "@ + name@ + " field mqtt.contracts["@ + name@
                    + "].device_id_from_topic uses unsupported strategy "@ + strategy@
                    + "; only placeholder:{device_id} is supported"@,
                ScenarioError::InvalidAdapterContract(s) => m@ == "invalid adapter contract: "@
                    + s@,
                ScenarioError::InvalidScenarioVersion { version, reason } => m@
                    == "invalid scenario version "@ + version@ + ": "@ + reason@,
                ScenarioError::ScenarioContract { field, reason } => m@
                    == "scenario contract violation: "@ + field@ + " "@ + reason@,
                ScenarioError::DeviceModel(e) => true,
                ScenarioError::Edge(e) => true,
                ScenarioError::Ops(e) => true,
            },
    {
        match self {
            ScenarioError::Read { path, source } => {
                let mut m = concat2("failed to read scenario ", path.as_str());
                push_str(&mut m, ": ");
                push_str(&mut m, source.as_str());
                m
            },
            ScenarioError::Parse { path, reason } => {
                let mut m = concat2("failed to parse scenario ", path.as_str());
                push_str(&mut m, ": ");
                push_str(&mut m, reason.as_str());
                m
            },
            ScenarioError::InvalidRelativeTime(s) => concat2(
                "invalid relative time expression ",
                s.as_str(),
            ),
            ScenarioError::InvalidDuration(s) => concat2("invalid duration ", s.as_str()),
            ScenarioError::UnknownDevice(s) => concat2("unknown device target ", s.as_str()),
            ScenarioError::InvalidStepKind => to_owned("step must contain a supported action"),
            ScenarioError::InvalidFaultKind { target, fault_type } => {
                let mut m = concat2(
                    "unsupported fault target/type combination: ",
                    target.as_str(),
                );
                push_str(&mut m, " ");
                push_str(&mut m, fault_type.as_str());
                m
            },
            ScenarioError::InvalidAssertionKind => to_owned(
                "assertion must contain a supported condition",
            ),
            ScenarioError::InvalidSensorReading(s) => concat2("invalid sensor reading: ", s.as_str()),
            ScenarioError::InvalidIdentifier { field, value } => {
                let mut m = concat2("invalid identifier ", field.as_str());
                push_str(&mut m, ": ");
                push_str(&mut m, value.as_str());
                m
            },
            ScenarioError::InvalidMqttTopic { field, value, reason } => {
                let mut m = concat2("invalid MQTT topic ", field.as_str());
                push_str(&mut m, ": ");
                push_str(&mut m, value.as_str());
                push_str(&mut m, " (");
                push_str(&mut m, reason.as_str());
                push_str(&mut m, ")");
                m
            },
            ScenarioError::UnsupportedMqttAdapter(s) => concat2(
                "unsupported MQTT adapter declaration ",
                s.as_str(),
            ),
            ScenarioError::MissingMqttTopicMapping(s) => {
                let mut m = concat2("MQTT contract ", s.as_str());
                push_str(&mut m, " is missing command_topic or state_topic");
                m
            },
            ScenarioError::AmbiguousMqttMapping(s) => concat2(
                "ambiguous MQTT command topic mapping ",
                s.as_str(),
            ),
            ScenarioError::UnsupportedMqttDeviceIdStrategy(name, strategy) => {
                let mut m = concat2("MQTT contract ", name.as_str());
                push_str(&mut m, " field mqtt.contracts[");
                push_str(&mut m, name.as_str());
                push_str(&mut m, "].device_id_from_topic uses unsupported strategy ");
                push_str(&mut m, strategy.as_str());
                push_str(&mut m, "; only placeholder:{device_id} is supported");
                m
            },
            ScenarioError::InvalidAdapterContract(s) => concat2(
                "invalid adapter contract: ",
                s.as_str(),
            ),
            ScenarioError::InvalidScenarioVersion { version, reason } => {
                let mut m = concat2("invalid scenario version ", version.as_str());
                push_str(&mut m, ": ");
                push_str(&mut m, reason.as_str());
                m
            },
            ScenarioError::ScenarioContract { field, reason } => {
                let mut m = concat2("scenario contract violation: ", field.as_str());
                push_str(&mut m, " ");
                push_str(&mut m, reason.as_str());
                m
            },
            ScenarioError::DeviceModel(e) => e.message(),
            ScenarioError::Edge(e) => e.message(),
            ScenarioError::Ops(e) => e.message(),
        }
    }
}

// ---------------------------------------------------------------------------
// Identifiers
// ---------------------------------------------------------------------------

/// Text that may name a device, scene, fixture, contact, alert, broker or
/// edge: not blank and free of whitespace.
pub open spec fn valid_identifier(s: Seq<char>) -> bool {
    !is_blank(s) && !has_whitespace(s)
}

/// A validated identifier.
#[derive(Debug)]
pub struct Identifier {
    text: String,
}

impl View for Identifier {
    type V = Seq<char>;

    closed spec fn view(&self) -> Seq<char> {
        self.text@
    }
}

impl Identifier {
    #[verifier::type_invariant]
    closed spec fn valid(&self) -> bool {
        valid_identifier(self.text@)
    }

    /// Every identifier is valid.
    pub fn check(&self) -> (b: bool)
        ensures
            b && valid_identifier(self@),
    {
        proof {
            use_type_invariant(self);
        }
        true
    }

    /// Validates `value` as an identifier; `field` names it in the error.
    pub fn parse(field: &str, value: &str) -> (r: Result<Identifier, ScenarioError>)
        ensures
            match r {
                Ok(id) => valid_identifier(value@) && id@ == value@,
                Err(ScenarioError::InvalidIdentifier { field: f, value: v }) => !valid_identifier(
                    value@,
                ) && f@ == field@ && v@ == value@,
                Err(_) => false,
            },
    {
        let chars = chars_of(value);
        if seq_is_blank(&chars) || seq_has_whitespace(&chars) {
            return Err(
                ScenarioError::InvalidIdentifier { field: to_owned(field), value: to_owned(value) },
            );
        }
        Ok(Identifier { text: to_owned(value) })
    }

    pub fn as_str(&self) -> (s: &str)
        ensures
            s@ == self@,
    {
        self.text.as_str()
    }
}

/// A device identifier.
#[derive(Debug)]
pub struct DeviceId(pub Identifier);

/// A scene identifier.
#[derive(Debug)]
pub struct SceneId(pub Identifier);

/// A lighting fixture identifier.
#[derive(Debug)]
pub struct FixtureId(pub Identifier);

/// A contact input identifier.
#[derive(Debug)]
pub struct ContactId(pub Identifier);

/// An ops alert identifier.
#[derive(Debug)]
pub struct AlertId(pub Identifier);

/// An MQTT broker identifier.
#[derive(Debug)]
pub struct BrokerId(pub Identifier);

/// An edge server identifier.
#[derive(Debug)]
pub struct EdgeId(pub Identifier);

impl DeviceId {
    pub fn parse(field: &str, value: &str) -> (r: Result<DeviceId, ScenarioError>)
        ensures
            match r {
                Ok(id) => valid_identifier(value@) && id.0@ == value@,
                Err(ScenarioError::InvalidIdentifier { field: f, value: v }) => !valid_identifier(
                    value@,
                ) && f@ == field@ && v@ == value@,
                Err(_) => false,
            },
    {
        match Identifier::parse(field, value) {
            Ok(id) => Ok(DeviceId(id)),
            Err(e) => Err(e),
        }
    }

    pub fn as_str(&self) -> (s: &str)
        ensures
            s@ == self.0@,
    {
        self.0.as_str()
    }
}

impl SceneId {
    pub fn parse(field: &str, value: &str) -> (r: Result<SceneId, ScenarioError>)
        ensures
            match r {
                Ok(id) => valid_identifier(value@) && id.0@ == value@,
                Err(ScenarioError::InvalidIdentifier { field: f, value: v }) => !valid_identifier(
                    value@,
                ) && f@ == field@ && v@ == value@,
                Err(_) => false,
            },
    {
        match Identifier::parse(field, value) {
            Ok(id) => Ok(SceneId(id)),
            Err(e) => Err(e),
        }
    }

    pub fn as_str(&self) -> (s: &str)
        ensures
            s@ == self.0@,
    {
        self.0.as_str()
    }
}

impl FixtureId {
    pub fn parse(field: &str, value: &str) -> (r: Result<FixtureId, ScenarioError>)
        ensures
            match r {
                Ok(id) => valid_identifier(value@) && id.0@ == value@,
                Err(ScenarioError::InvalidIdentifier { field: f, value: v }) => !valid_identifier(
                    value@,
                ) && f@ == field@ && v@ == value@,
                Err(_) => false,
            },
    {
        match Identifier::parse(field, value) {
            Ok(id) => Ok(FixtureId(id)),
            Err(e) => Err(e),
        }
    }

    pub fn as_str(&self) -> (s: &str)
        ensures
            s@ == self.0@,
    {
        self.0.as_str()
    }
}

impl ContactId {
    pub fn parse(field: &str, value: &str) -> (r: Result<ContactId, ScenarioError>)
        ensures
            match r {
                Ok(id) => valid_identifier(value@) && id.0@ == value@,
                Err(ScenarioError::InvalidIdentifier { field: f, value: v }) => !valid_identifier(
                    value@,
                ) && f@ == field@ && v@ == value@,
                Err(_) => false,
            },
    {
        match Identifier::parse(field, value) {
            Ok(id) => Ok(ContactId(id)),
            Err(e) => Err(e),
        }
    }

    pub fn as_str(&self) -> (s: &str)
        ensures
            s@ == self.0@,
    {
        self.0.as_str()
    }
}

impl AlertId {
    pub fn parse(field: &str, value: &str) -> (r: Result<AlertId, ScenarioError>)
        ensures
            match r {
                Ok(id) => valid_identifier(value@) && id.0@ == value@,
                Err(ScenarioError::InvalidIdentifier { field: f, value: v }) => !valid_identifier(
                    value@,
                ) && f@ == field@ && v@ == value@,
                Err(_) => false,
            },
    {
        match Identifier::parse(field, value) {
            Ok(id) => Ok(AlertId(id)),
            Err(e) => Err(e),
        }
    }

    pub fn as_str(&self) -> (s: &str)
        ensures
            s@ == self.0@,
    {
        self.0.as_str()
    }
}

impl BrokerId {
    pub fn parse(field: &str, value: &str) -> (r: Result<BrokerId, ScenarioError>)
        ensures
            match r {
                Ok(id) => valid_identifier(value@) && id.0@ == value@,
                Err(ScenarioError::InvalidIdentifier { field: f, value: v }) => !valid_identifier(
                    value@,
                ) && f@ == field@ && v@ == value@,
                Err(_) => false,
            },
    {
        match Identifier::parse(field, value) {
            Ok(id) => Ok(BrokerId(id)),
            Err(e) => Err(e),
        }
    }

    pub fn as_str(&self) -> (s: &str)
        ensures
            s@ == self.0@,
    {
        self.0.as_str()
    }
}

impl EdgeId {
    pub fn parse(field: &str, value: &str) -> (r: Result<EdgeId, ScenarioError>)
        ensures
            match r {
                Ok(id) => valid_identifier(value@) && id.0@ == value@,
                Err(ScenarioError::InvalidIdentifier { field: f, value: v }) => !valid_identifier(
                    value@,
                ) && f@ == field@ && v@ == value@,
                Err(_) => false,
            },
    {
        match Identifier::parse(field, value) {
            Ok(id) => Ok(EdgeId(id)),
            Err(e) => Err(e),
        }
    }

    pub fn as_str(&self) -> (s: &str)
        ensures
            s@ == self.0@,
    {
        self.0.as_str()
    }
}

// ---------------------------------------------------------------------------
// MQTT topics
// ---------------------------------------------------------------------------

/// Whether `trim` would change `s`: it starts or ends with whitespace.
pub open spec fn has_outer_whitespace(s: Seq<char>) -> bool {
    s.len() > 0 && (is_whitespace(s[0]) || is_whitespace(s.last()))
}

/// What is wrong with `value` as a concrete publish topic (or, when
/// `template`, as a topic template that must mention `{device_id}`).
pub open spec fn mqtt_topic_problem(value: Seq<char>, template: bool) -> Option<Seq<char>> {
    if is_blank(value) {
        Some("must not be empty"@)
    } else if has_outer_whitespace(value) {
        Some("must not contain leading or trailing whitespace"@)
    } else if has_whitespace(value) {
        Some("must not contain whitespace"@)
    } else if value.contains('#') || value.contains('+') {
        Some("must be a concrete publish topic, not a wildcard subscription"@)
    } else if template && !contains_seq(value, "{device_id}"@) {
        Some("must include {device_id}"@)
    } else {
        None
    }
}

/// Checks an MQTT topic text; `field` names it in the error.
pub fn validate_mqtt_topic_text(field: &str, value: &str, allow_device_placeholder: bool) -> (r:
    Result<(), ScenarioError>)
    ensures
        match r {
            Ok(()) => mqtt_topic_problem(value@, allow_device_placeholder) is None,
            Err(ScenarioError::InvalidMqttTopic { field: f, value: v, reason }) => mqtt_topic_problem(
                value@,
                allow_device_placeholder,
            ) == Some(reason@) && f@ == field@ && v@ == value@,
            Err(_) => false,
        },
{
    let chars = chars_of(value);
    if seq_is_blank(&chars) {
        return invalid_mqtt_topic(field, value, "must not be empty");
    }
    if chars.len() > 0 && (char_is_whitespace(chars[0]) || char_is_whitespace(
        chars[chars.len() - 1],
    )) {
        return invalid_mqtt_topic(field, value, "must not contain leading or trailing whitespace");
    }
    if seq_has_whitespace(&chars) {
        return invalid_mqtt_topic(field, value, "must not contain whitespace");
    }
    if seq_contains_char(&chars, '#') || seq_contains_char(&chars, '+') {
        return invalid_mqtt_topic(
            field,
            value,
            "must be a concrete publish topic, not a wildcard subscription",
        );
    }
    if allow_device_placeholder {
        let placeholder = chars_of("{device_id}");
        if !crate::text::contains_text(&chars, &placeholder) {
            return invalid_mqtt_topic(field, value, "must include {device_id}");
        }
    }
    Ok(())
}

fn invalid_mqtt_topic(field: &str, value: &str, reason: &str) -> (r: Result<(), ScenarioError>)
    ensures
        r matches Err(ScenarioError::InvalidMqttTopic { field: f, value: v, reason: why }) && f@
            == field@ && v@ == value@ && why@ == reason@,
{
    Err(
        ScenarioError::InvalidMqttTopic {
            field: to_owned(field),
            value: to_owned(value),
            reason: to_owned(reason),
        },
    )
}

/// A validated concrete MQTT publish topic.
#[derive(Debug)]
pub struct MqttTopic {
    text: String,
}

impl View for MqttTopic {
    type V = Seq<char>;

    closed spec fn view(&self) -> Seq<char> {
        self.text@
    }
}

impl MqttTopic {
    #[verifier::type_invariant]
    closed spec fn valid(&self) -> bool {
        mqtt_topic_problem(self.text@, false) is None
    }

    /// Validates `value` as a concrete publish topic.
    pub fn parse(field: &str, value: &str) -> (r: Result<MqttTopic, ScenarioError>)
        ensures
            match r {
                Ok(t) => mqtt_topic_problem(value@, false) is None && t@ == value@,
                Err(ScenarioError::InvalidMqttTopic { field: f, value: v, reason }) =>
                    mqtt_topic_problem(value@, false) == Some(reason@) && f@ == field@ && v@
                    == value@,
                Err(_) => false,
            },
    {
        match validate_mqtt_topic_text(field, value, false) {
            Ok(()) => Ok(MqttTopic { text: to_owned(value) }),
            Err(e) => Err(e),
        }
    }

    pub fn as_str(&self) -> (s: &str)
        ensures
            s@ == self@,
    {
        self.text.as_str()
    }
}

/// A validated MQTT topic template that mentions `{device_id}`.
#[derive(Debug)]
pub struct MqttTopicTemplate {
    text: String,
}

impl View for MqttTopicTemplate {
    type V = Seq<char>;

    closed spec fn view(&self) -> Seq<char> {
        self.text@
    }
}

impl MqttTopicTemplate {
    #[verifier::type_invariant]
    closed spec fn valid(&self) -> bool {
        mqtt_topic_problem(self.text@, true) is None
    }

    /// Validates `value` as a topic template.
    pub fn parse(field: &str, value: &str) -> (r: Result<MqttTopicTemplate, ScenarioError>)
        ensures
            match r {
                Ok(t) => mqtt_topic_problem(value@, true) is None && t@ == value@,
                Err(ScenarioError::InvalidMqttTopic { field: f, value: v, reason }) =>
                    mqtt_topic_problem(value@, true) == Some(reason@) && f@ == field@ && v@
                    == value@,
                Err(_) => false,
            },
    {
        match validate_mqtt_topic_text(field, value, true) {
            Ok(()) => Ok(MqttTopicTemplate { text: to_owned(value) }),
            Err(e) => Err(e),
        }
    }
}

// ---------------------------------------------------------------------------
// Command and sensor targets
// ---------------------------------------------------------------------------

/// The target of a command step: `scene.<id>` or any other identifier.
#[derive(Debug)]
pub enum CommandTarget {
    Scene(SceneId),
    Other(Identifier),
}

/// How a command target text is read: `Ok((true, id))` for a scene, `Ok((false, id))`
/// otherwise, `Err(text)` naming the invalid identifier.
pub open spec fn command_target_of(target: Seq<char>) -> Result<(bool, Seq<char>), Seq<char>> {
    if has_prefix(target, "scene."@) {
        let scene = target.subrange(6, target.len() as int);
        if valid_identifier(scene) {
            Ok((true, scene))
        } else {
            Err(scene)
        }
    } else if valid_identifier(target) {
        Ok((false, target))
    } else {
        Err(target)
    }
}

impl CommandTarget {
    pub open spec fn spec_is_scene(&self) -> bool {
        self is Scene
    }

    pub open spec fn spec_id(&self) -> Seq<char> {
        match self {
            CommandTarget::Scene(s) => s.0@,
            CommandTarget::Other(t) => t@,
        }
    }

    /// Reads a command target; a `scene.` prefix names a scene.
    pub fn parse(target: &str) -> (r: Result<CommandTarget, ScenarioError>)
        ensures
            match r {
                Ok(t) => command_target_of(target@) == Ok::<(bool, Seq<char>), Seq<char>>(
                    (t.spec_is_scene(), t.spec_id()),
                ),
                Err(ScenarioError::InvalidIdentifier { field, value }) => command_target_of(
                    target@,
                ) == Err::<(bool, Seq<char>), Seq<char>>(value@) && field@
                    == "steps[].command.target"@,
                Err(_) => false,
            },
    {
        let chars = chars_of(target);
        let prefix = chars_of("scene.");
        proof {
            reveal_strlit("scene.");
        }
        if starts_with(&chars, &prefix) {
            let scene = string_from_subrange(&chars, 6, chars.len());
            return match SceneId::parse("steps[].command.target", scene.as_str()) {
                Ok(id) => Ok(CommandTarget::Scene(id)),
                Err(e) => Err(e),
            };
        }
        match Identifier::parse("steps[].command.target", target) {
            Ok(id) => Ok(CommandTarget::Other(id)),
            Err(e) => Err(e),
        }
    }

    /// The identifier, without a `scene.` prefix.
    pub fn as_str(&self) -> (s: &str)
        ensures
            s@ == self.spec_id(),
    {
        match self {
            CommandTarget::Scene(scene) => scene.as_str(),
            CommandTarget::Other(target) => target.as_str(),
        }
    }

    /// The target as written: scenes carry their `scene.` prefix.
    pub fn display_target(&self) -> (s: String)
        ensures
            s@ == if self.spec_is_scene() {
                "scene."@ + self.spec_id()
            } else {
                self.spec_id()
            },
    {
        match self {
            CommandTarget::Scene(scene) => concat2("scene.", scene.as_str()),
            CommandTarget::Other(target) => to_owned(target.as_str()),
        }
    }
}

/// The target of a sensor reading step.
#[derive(Debug)]
pub struct SensorTarget(pub Identifier);

impl SensorTarget {
    pub fn parse(value: &str) -> (r: Result<SensorTarget, ScenarioError>)
        ensures
            match r {
                Ok(t) => valid_identifier(value@) && t.0@ == value@,
                Err(ScenarioError::InvalidIdentifier { field, value: v }) => !valid_identifier(
                    value@,
                ) && field@ == "steps[].sensor_reading.target"@ && v@ == value@,
                Err(_) => false,
            },
    {
        match Identifier::parse("steps[].sensor_reading.target", value) {
            Ok(id) => Ok(SensorTarget(id)),
            Err(e) => Err(e),
        }
    }

    pub fn as_str(&self) -> (s: &str)
        ensures
            s@ == self.0@,
    {
        self.0.as_str()
    }
}

// ---------------------------------------------------------------------------
// Faults
// ---------------------------------------------------------------------------

/// A scheduled fault of a scenario.
#[derive(Debug)]
pub struct FaultStep {
    pub at: Option<String>,
    pub target: String,
    pub fault_type: String,
    pub duration: Option<String>,
    pub severity: Option<String>,
    pub topic: Option<String>,
    pub count: Option<u32>,
}

/// The fault a target/type pair names, before its identifiers are checked.
#[derive(Debug)]
pub enum TypedFaultKind {
    BrokerOffline { target: String },
    EdgePrimaryPowerLost,
    WanPrimaryDown,
    MqttDuplicateDelivery { topic: Option<String>, count: Option<u32> },
    NetworkSegmentIsolated { target: String, segment: String },
    FirewallPolicyDrift { target: String, policy: String },
    MqttLocalUnreachable,
    ControlPanelUpsBatteryDegraded,
    ControlPanelCircuitProtectorTripped { target: String },
    ControlPanelPsuDegraded { target: String },
    EdgeSecondaryTakeoverFailed,
    DaliFixtureCommandDrop { target: String, fixture: String },
}

pub enum TypedFaultView {
    BrokerOffline { target: Seq<char> },
    EdgePrimaryPowerLost,
    WanPrimaryDown,
    MqttDuplicateDelivery { topic: Option<Seq<char>>, count: Option<u32> },
    NetworkSegmentIsolated { target: Seq<char>, segment: Seq<char> },
    FirewallPolicyDrift { target: Seq<char>, policy: Seq<char> },
    MqttLocalUnreachable,
    ControlPanelUpsBatteryDegraded,
    ControlPanelCircuitProtectorTripped { target: Seq<char> },
    ControlPanelPsuDegraded { target: Seq<char> },
    EdgeSecondaryTakeoverFailed,
    DaliFixtureCommandDrop { target: Seq<char>, fixture: Seq<char> },
}

pub open spec fn opt_text(o: Option<String>) -> Option<Seq<char>> {
    match o {
        Some(s) => Some(s@),
        None => None,
    }
}

impl View for TypedFaultKind {
    type V = TypedFaultView;

    open spec fn view(&self) -> TypedFaultView {
        match self {
            TypedFaultKind::BrokerOffline { target } => TypedFaultView::BrokerOffline {
                target: target@,
            },
            TypedFaultKind::EdgePrimaryPowerLost => TypedFaultView::EdgePrimaryPowerLost,
            TypedFaultKind::WanPrimaryDown => TypedFaultView::WanPrimaryDown,
            TypedFaultKind::MqttDuplicateDelivery { topic, count } =>
                TypedFaultView::MqttDuplicateDelivery { topic: opt_text(*topic), count: *count },
            TypedFaultKind::NetworkSegmentIsolated { target, segment } =>
                TypedFaultView::NetworkSegmentIsolated { target: target@, segment: segment@ },
            TypedFaultKind::FirewallPolicyDrift { target, policy } =>
                TypedFaultView::FirewallPolicyDrift { target: target@, policy: policy@ },
            TypedFaultKind::MqttLocalUnreachable => TypedFaultView::MqttLocalUnreachable,
            TypedFaultKind::ControlPanelUpsBatteryDegraded =>
                TypedFaultView::ControlPanelUpsBatteryDegraded,
            TypedFaultKind::ControlPanelCircuitProtectorTripped { target } =>
                TypedFaultView::ControlPanelCircuitProtectorTripped { target: target@ },
            TypedFaultKind::ControlPanelPsuDegraded { target } =>
                TypedFaultView::ControlPanelPsuDegraded { target: target@ },
            TypedFaultKind::EdgeSecondaryTakeoverFailed => TypedFaultView::EdgeSecondaryTakeoverFailed,
            TypedFaultKind::DaliFixtureCommandDrop { target, fixture } =>
                TypedFaultView::DaliFixtureCommandDrop { target: target@, fixture: fixture@ },
        }
    }
}

/// The part of `s` after `prefix`, when `s` starts with it.
pub open spec fn after_prefix(s: Seq<char>, prefix: Seq<char>) -> Option<Seq<char>> {
    if has_prefix(s, prefix) {
        Some(s.subrange(prefix.len() as int, s.len() as int))
    } else {
        None
    }
}

/// The fault catalogue: which target/type pairs name a fault.
pub open spec fn fault_kind_of(
    target: Seq<char>,
    fault_type: Seq<char>,
    topic: Option<Seq<char>>,
    count: Option<u32>,
) -> Option<TypedFaultView> {
    if (target == "mqtt.cloud"@ || target == "mqtt.local"@) && fault_type == "offline"@ {
        Some(TypedFaultView::BrokerOffline { target })
    } else if target == "edge.primary"@ && fault_type == "power_lost"@ {
        Some(TypedFaultView::EdgePrimaryPowerLost)
    } else if target == "wan.primary"@ && fault_type == "down"@ {
        Some(TypedFaultView::WanPrimaryDown)
    } else if target == "mqtt.local"@ && fault_type == "duplicate_delivery"@ {
        Some(TypedFaultView::MqttDuplicateDelivery { topic, count })
    } else if target == "mqtt.local"@ && fault_type == "unreachable"@ {
        Some(TypedFaultView::MqttLocalUnreachable)
    } else if target == "control_panel.ups"@ && fault_type == "battery_degraded"@ {
        Some(TypedFaultView::ControlPanelUpsBatteryDegraded)
    } else if target == "edge.secondary"@ && fault_type == "takeover_failed"@ {
        Some(TypedFaultView::EdgeSecondaryTakeoverFailed)
    } else if fault_type == "isolated"@ {
        match after_prefix(target, "network.segment."@) {
            Some(segment) => Some(TypedFaultView::NetworkSegmentIsolated { target, segment }),
            None => None,
        }
    } else if fault_type == "drift"@ {
        match after_prefix(target, "firewall.policy."@) {
            Some(policy) => Some(TypedFaultView::FirewallPolicyDrift { target, policy }),
            None => None,
        }
    } else if fault_type == "tripped"@ {
        if has_prefix(target, "control_panel.circuit_protector."@) {
            Some(TypedFaultView::ControlPanelCircuitProtectorTripped { target })
        } else {
            None
        }
    } else if fault_type == "degraded"@ {
        if has_prefix(target, "control_panel.psu."@) {
            Some(TypedFaultView::ControlPanelPsuDegraded { target })
        } else {
            None
        }
    } else if fault_type == "command_drop"@ {
        match after_prefix(target, "dali.fixture."@) {
            Some(fixture) => Some(TypedFaultView::DaliFixtureCommandDrop { target, fixture }),
            None => None,
        }
    } else {
        None
    }
}

fn strip_prefix_text(s: &str, prefix: &str) -> (r: Option<String>)
    ensures
        match r {
            Some(rest) => after_prefix(s@, prefix@) == Some(rest@),
            None => after_prefix(s@, prefix@) is None,
        },
{
    let chars = chars_of(s);
    let p = chars_of(prefix);
    if starts_with(&chars, &p) {
        Some(string_from_subrange(&chars, p.len(), chars.len()))
    } else {
        None
    }
}

fn clone_text(o: &Option<String>) -> (r: Option<String>)
    ensures
        opt_text(r) == opt_text(*o),
{
    match o {
        Some(s) => Some(s.clone()),
        None => None,
    }
}

/// Reads the fault a scheduled fault step names.
pub fn typed_fault_kind(fault: &FaultStep) -> (r: Result<TypedFaultKind, ScenarioError>)
    ensures
        match r {
            Ok(k) => fault_kind_of(
                fault.target@,
                fault.fault_type@,
                opt_text(fault.topic),
                fault.count,
            ) == Some(k@),
            Err(ScenarioError::InvalidFaultKind { target, fault_type }) => fault_kind_of(
                fault.target@,
                fault.fault_type@,
                opt_text(fault.topic),
                fault.count,
            ) is None && target@ == fault.target@ && fault_type@ == fault.fault_type@,
            Err(_) => false,
        },
{
    let target = fault.target.as_str();
    let ft = fault.fault_type.as_str();
    if (str_eq(target, "mqtt.cloud") || str_eq(target, "mqtt.local")) && str_eq(ft, "offline") {
        return Ok(TypedFaultKind::BrokerOffline { target: to_owned(target) });
    }
    if str_eq(target, "edge.primary") && str_eq(ft, "power_lost") {
        return Ok(TypedFaultKind::EdgePrimaryPowerLost);
    }
    if str_eq(target, "wan.primary") && str_eq(ft, "down") {
        return Ok(TypedFaultKind::WanPrimaryDown);
    }
    if str_eq(target, "mqtt.local") && str_eq(ft, "duplicate_delivery") {
        return Ok(
            TypedFaultKind::MqttDuplicateDelivery { topic: clone_text(&fault.topic), count: fault.count },
        );
    }
    if str_eq(target, "mqtt.local") && str_eq(ft, "unreachable") {
        return Ok(TypedFaultKind::MqttLocalUnreachable);
    }
    if str_eq(target, "control_panel.ups") && str_eq(ft, "battery_degraded") {
        return Ok(TypedFaultKind::ControlPanelUpsBatteryDegraded);
    }
    if str_eq(target, "edge.secondary") && str_eq(ft, "takeover_failed") {
        return Ok(TypedFaultKind::EdgeSecondaryTakeoverFailed);
    }
    if str_eq(ft, "isolated") {
        return match strip_prefix_text(target, "network.segment.") {
            Some(segment) => Ok(
                TypedFaultKind::NetworkSegmentIsolated { target: to_owned(target), segment },
            ),
            None => invalid_fault_kind(fault),
        };
    }
    if str_eq(ft, "drift") {
        return match strip_prefix_text(target, "firewall.policy.") {
            Some(policy) => Ok(TypedFaultKind::FirewallPolicyDrift { target: to_owned(target), policy }),
            None => invalid_fault_kind(fault),
        };
    }
    if str_eq(ft, "tripped") {
        return match strip_prefix_text(target, "control_panel.circuit_protector.") {
            Some(_) => Ok(TypedFaultKind::ControlPanelCircuitProtectorTripped { target: to_owned(target) }),
            None => invalid_fault_kind(fault),
        };
    }
    if str_eq(ft, "degraded") {
        return match strip_prefix_text(target, "control_panel.psu.") {
            Some(_) => Ok(TypedFaultKind::ControlPanelPsuDegraded { target: to_owned(target) }),
            None => invalid_fault_kind(fault),
        };
    }
    if str_eq(ft, "command_drop") {
        return match strip_prefix_text(target, "dali.fixture.") {
            Some(fixture) => Ok(
                TypedFaultKind::DaliFixtureCommandDrop { target: to_owned(target), fixture },
            ),
            None => invalid_fault_kind(fault),
        };
    }
    invalid_fault_kind(fault)
}

/// The error for a fault target/type pair outside the catalogue.
pub fn invalid_fault_kind(fault: &FaultStep) -> (r: Result<TypedFaultKind, ScenarioError>)
    ensures
        r matches Err(ScenarioError::InvalidFaultKind { target, fault_type }) && target@
            == fault.target@ && fault_type@ == fault.fault_type@,
{
    Err(
        ScenarioError::InvalidFaultKind {
            target: fault.target.clone(),
            fault_type: fault.fault_type.clone(),
        },
    )
}

/// A fault whose identifiers have been checked.
#[derive(Debug)]
pub enum ValidatedFaultKind {
    BrokerOffline { target: BrokerId },
    EdgePrimaryPowerLost,
    WanPrimaryDown,
    MqttDuplicateDelivery { topic: Option<MqttTopic>, count: Option<u32> },
    NetworkSegmentIsolated { segment: Identifier },
    FirewallPolicyDrift { policy: Identifier },
    MqttLocalUnreachable,
    ControlPanelUpsBatteryDegraded,
    ControlPanelCircuitProtectorTripped { protector: Identifier },
    ControlPanelPsuDegraded { psu: Identifier },
    EdgeSecondaryTakeoverFailed,
    DaliFixtureCommandDrop { fixture: FixtureId },
}

/// The identifier a typed fault carries and the field that names it.
pub open spec fn fault_identifier(k: TypedFaultView) -> Option<(Seq<char>, Seq<char>)> {
    match k {
        TypedFaultView::BrokerOffline { target } => Some(("faults[].target"@, target)),
        TypedFaultView::NetworkSegmentIsolated { target, segment } => Some(
            ("faults[].network.segment"@, segment),
        ),
        TypedFaultView::FirewallPolicyDrift { target, policy } => Some(
            ("faults[].firewall.policy"@, policy),
        ),
        TypedFaultView::ControlPanelCircuitProtectorTripped { target } => Some(
            (
                "faults[].control_panel.circuit_protector"@,
                target.subrange(32, target.len() as int),
            ),
        ),
        TypedFaultView::ControlPanelPsuDegraded { target } => Some(
            ("faults[].control_panel.psu"@, target.subrange(18, target.len() as int)),
        ),
        TypedFaultView::DaliFixtureCommandDrop { target, fixture } => Some(
            ("faults[].target.fixture"@, fixture),
        ),
        _ => None,
    }
}

impl ValidatedFaultKind {
    /// The identifier the fault carries (empty for faults without one).
    pub open spec fn spec_identifier(&self) -> Seq<char> {
        match self {
            ValidatedFaultKind::BrokerOffline { target } => target.0@,
            ValidatedFaultKind::NetworkSegmentIsolated { segment } => segment@,
            ValidatedFaultKind::FirewallPolicyDrift { policy } => policy@,
            ValidatedFaultKind::ControlPanelCircuitProtectorTripped { protector } => protector@,
            ValidatedFaultKind::ControlPanelPsuDegraded { psu } => psu@,
            ValidatedFaultKind::DaliFixtureCommandDrop { fixture } => fixture.0@,
            _ => Seq::empty(),
        }
    }

    /// The fault's target text.
    pub open spec fn spec_target(&self) -> Seq<char> {
        match self {
            ValidatedFaultKind::BrokerOffline { target } => target.0@,
            ValidatedFaultKind::NetworkSegmentIsolated { segment } => "network.segment."@ + segment@,
            ValidatedFaultKind::FirewallPolicyDrift { policy } => "firewall.policy."@ + policy@,
            ValidatedFaultKind::ControlPanelCircuitProtectorTripped { protector } =>
                "control_panel.circuit_protector."@ + protector@,
            ValidatedFaultKind::ControlPanelPsuDegraded { psu } => "control_panel.psu."@ + psu@,
            ValidatedFaultKind::DaliFixtureCommandDrop { fixture } => "dali.fixture."@ + fixture.0@,
            ValidatedFaultKind::EdgePrimaryPowerLost => "edge.primary"@,
            ValidatedFaultKind::WanPrimaryDown => "wan.primary"@,
            ValidatedFaultKind::MqttDuplicateDelivery { .. } => "mqtt.local"@,
            ValidatedFaultKind::MqttLocalUnreachable => "mqtt.local"@,
            ValidatedFaultKind::ControlPanelUpsBatteryDegraded => "control_panel.ups"@,
            ValidatedFaultKind::EdgeSecondaryTakeoverFailed => "edge.secondary"@,
        }
    }

    /// The fault's type text.
    pub open spec fn spec_fault_type(&self) -> Seq<char> {
        match self {
            ValidatedFaultKind::BrokerOffline { .. } => "offline"@,
            ValidatedFaultKind::EdgePrimaryPowerLost => "power_lost"@,
            ValidatedFaultKind::WanPrimaryDown => "down"@,
            ValidatedFaultKind::MqttDuplicateDelivery { .. } => "duplicate_delivery"@,
            ValidatedFaultKind::NetworkSegmentIsolated { .. } => "isolated"@,
            ValidatedFaultKind::FirewallPolicyDrift { .. } => "drift"@,
            ValidatedFaultKind::MqttLocalUnreachable => "unreachable"@,
            ValidatedFaultKind::ControlPanelUpsBatteryDegraded => "battery_degraded"@,
            ValidatedFaultKind::ControlPanelCircuitProtectorTripped { .. } => "tripped"@,
            ValidatedFaultKind::ControlPanelPsuDegraded { .. } => "degraded"@,
            ValidatedFaultKind::EdgeSecondaryTakeoverFailed => "takeover_failed"@,
            ValidatedFaultKind::DaliFixtureCommandDrop { .. } => "command_drop"@,
        }
    }

    /// Validates a scheduled fault: it must name a catalogued fault, its
    /// identifier must be valid and a duplicate-delivery topic must be a
    /// concrete topic. A validated fault keeps the step's target and type.
    pub fn try_from_fault(fault: &FaultStep) -> (r: Result<ValidatedFaultKind, ScenarioError>)
        ensures
            match r {
                Ok(v) => {
                    &&& fault_kind_of(
                        fault.target@,
                        fault.fault_type@,
                        opt_text(fault.topic),
                        fault.count,
                    ) matches Some(k) && match fault_identifier(k) {
                        Some((_, id)) => valid_identifier(id) && v.spec_identifier() == id,
                        None => true,
                    }
                    &&& v.spec_target() == fault.target@
                    &&& v.spec_fault_type() == fault.fault_type@
                    &&& v matches ValidatedFaultKind::MqttDuplicateDelivery { topic, count } ==> count
                        == fault.count && match (topic, fault.topic) {
                        (Some(t), Some(given)) => t@ == given@,
                        (None, None) => true,
                        _ => false,
                    }
                    &&& fault_kind_of(
                        fault.target@,
                        fault.fault_type@,
                        opt_text(fault.topic),
                        fault.count,
                    ) matches Some(TypedFaultView::MqttDuplicateDelivery { topic: Some(t), .. }) ==> mqtt_topic_problem(
                        t,
                        false,
                    ) is None
                },
                Err(ScenarioError::InvalidFaultKind { target, fault_type }) => fault_kind_of(
                    fault.target@,
                    fault.fault_type@,
                    opt_text(fault.topic),
                    fault.count,
                ) is None && target@ == fault.target@ && fault_type@ == fault.fault_type@,
                Err(ScenarioError::InvalidIdentifier { field, value }) => fault_kind_of(
                    fault.target@,
                    fault.fault_type@,
                    opt_text(fault.topic),
                    fault.count,
                ) matches Some(k) && fault_identifier(k) == Some((field@, value@))
                    && !valid_identifier(value@),
                Err(ScenarioError::InvalidMqttTopic { field, value, reason }) => fault_kind_of(
                    fault.target@,
                    fault.fault_type@,
                    opt_text(fault.topic),
                    fault.count,
                ) matches Some(TypedFaultView::MqttDuplicateDelivery { topic: Some(t), count })
                    && field@ == "faults[].topic"@ && value@ == t && mqtt_topic_problem(t, false)
                    == Some(reason@),
                Err(_) => false,
            },
    {
        let kind = typed_fault_kind(fault)?;
        match kind {
            TypedFaultKind::BrokerOffline { target } => {
                let id = BrokerId::parse("faults[].target", target.as_str())?;
                Ok(ValidatedFaultKind::BrokerOffline { target: id })
            },
            TypedFaultKind::EdgePrimaryPowerLost => Ok(ValidatedFaultKind::EdgePrimaryPowerLost),
            TypedFaultKind::WanPrimaryDown => Ok(ValidatedFaultKind::WanPrimaryDown),
            TypedFaultKind::MqttDuplicateDelivery { topic, count } => {
                let topic = match topic {
                    Some(t) => Some(MqttTopic::parse("faults[].topic", t.as_str())?),
                    None => None,
                };
                Ok(ValidatedFaultKind::MqttDuplicateDelivery { topic, count })
            },
            TypedFaultKind::NetworkSegmentIsolated { target, segment } => {
                let segment = Identifier::parse("faults[].network.segment", segment.as_str())?;
                proof {
                    assert(target@ =~= "network.segment."@ + segment@);
                }
                Ok(ValidatedFaultKind::NetworkSegmentIsolated { segment })
            },
            TypedFaultKind::FirewallPolicyDrift { target, policy } => {
                let policy = Identifier::parse("faults[].firewall.policy", policy.as_str())?;
                proof {
                    assert(target@ =~= "firewall.policy."@ + policy@);
                }
                Ok(ValidatedFaultKind::FirewallPolicyDrift { policy })
            },
            TypedFaultKind::MqttLocalUnreachable => Ok(ValidatedFaultKind::MqttLocalUnreachable),
            TypedFaultKind::ControlPanelUpsBatteryDegraded => Ok(
                ValidatedFaultKind::ControlPanelUpsBatteryDegraded,
            ),
            TypedFaultKind::ControlPanelCircuitProtectorTripped { target } => {
                let protector = match strip_prefix_text(
                    target.as_str(),
                    "control_panel.circuit_protector.",
                ) {
                    Some(p) => p,
                    None => {
                        return Err(
                            ScenarioError::InvalidFaultKind {
                                target: target.clone(),
                                fault_type: to_owned("tripped"),
                            },
                        );
                    },
                };
                proof {
                    reveal_strlit("control_panel.circuit_protector.");
                }
                let protector = Identifier::parse(
                    "faults[].control_panel.circuit_protector",
                    protector.as_str(),
                )?;
                proof {
                    assert(target@ =~= "control_panel.circuit_protector."@ + protector@);
                }
                Ok(ValidatedFaultKind::ControlPanelCircuitProtectorTripped { protector })
            },
            TypedFaultKind::ControlPanelPsuDegraded { target } => {
                let psu = match strip_prefix_text(target.as_str(), "control_panel.psu.") {
                    Some(p) => p,
                    None => {
                        return Err(
                            ScenarioError::InvalidFaultKind {
                                target: target.clone(),
                                fault_type: to_owned("degraded"),
                            },
                        );
                    },
                };
                proof {
                    reveal_strlit("control_panel.psu.");
                }
                let psu = Identifier::parse("faults[].control_panel.psu", psu.as_str())?;
                proof {
                    assert(target@ =~= "control_panel.psu."@ + psu@);
                }
                Ok(ValidatedFaultKind::ControlPanelPsuDegraded { psu })
            },
            TypedFaultKind::EdgeSecondaryTakeoverFailed => Ok(
                ValidatedFaultKind::EdgeSecondaryTakeoverFailed,
            ),
            TypedFaultKind::DaliFixtureCommandDrop { target, fixture } => {
                let fixture = FixtureId::parse("faults[].target.fixture", fixture.as_str())?;
                proof {
                    assert(target@ =~= "dali.fixture."@ + fixture.0@);
                }
                Ok(ValidatedFaultKind::DaliFixtureCommandDrop { fixture })
            },
        }
    }

    /// The fault's target text.
    pub fn target(&self) -> (s: String)
        ensures
            s@ == self.spec_target(),
    {
        match self {
            ValidatedFaultKind::BrokerOffline { target } => to_owned(target.as_str()),
            ValidatedFaultKind::NetworkSegmentIsolated { segment } => concat2(
                "network.segment.",
                segment.as_str(),
            ),
            ValidatedFaultKind::FirewallPolicyDrift { policy } => concat2(
                "firewall.policy.",
                policy.as_str(),
            ),
            ValidatedFaultKind::ControlPanelCircuitProtectorTripped { protector } => concat2(
                "control_panel.circuit_protector.",
                protector.as_str(),
            ),
            ValidatedFaultKind::ControlPanelPsuDegraded { psu } => concat2(
                "control_panel.psu.",
                psu.as_str(),
            ),
            ValidatedFaultKind::DaliFixtureCommandDrop { fixture } => concat2(
                "dali.fixture.",
                fixture.as_str(),
            ),
            ValidatedFaultKind::EdgePrimaryPowerLost => to_owned("edge.primary"),
            ValidatedFaultKind::WanPrimaryDown => to_owned("wan.primary"),
            ValidatedFaultKind::MqttDuplicateDelivery { .. } => to_owned("mqtt.local"),
            ValidatedFaultKind::MqttLocalUnreachable => to_owned("mqtt.local"),
            ValidatedFaultKind::ControlPanelUpsBatteryDegraded => to_owned("control_panel.ups"),
            ValidatedFaultKind::EdgeSecondaryTakeoverFailed => to_owned("edge.secondary"),
        }
    }

    /// The fault's type text.
    pub fn fault_type(&self) -> (s: &'static str)
        ensures
            s@ == self.spec_fault_type(),
    {
        match self {
            ValidatedFaultKind::BrokerOffline { .. } => "offline",
            ValidatedFaultKind::EdgePrimaryPowerLost => "power_lost",
            ValidatedFaultKind::WanPrimaryDown => "down",
            ValidatedFaultKind::MqttDuplicateDelivery { .. } => "duplicate_delivery",
            ValidatedFaultKind::NetworkSegmentIsolated { .. } => "isolated",
            ValidatedFaultKind::FirewallPolicyDrift { .. } => "drift",
            ValidatedFaultKind::MqttLocalUnreachable => "unreachable",
            ValidatedFaultKind::ControlPanelUpsBatteryDegraded => "battery_degraded",
            ValidatedFaultKind::ControlPanelCircuitProtectorTripped { .. } => "tripped",
            ValidatedFaultKind::ControlPanelPsuDegraded { .. } => "degraded",
            ValidatedFaultKind::EdgeSecondaryTakeoverFailed => "takeover_failed",
            ValidatedFaultKind::DaliFixtureCommandDrop { .. } => "command_drop",
        }
    }
}

} // verus!

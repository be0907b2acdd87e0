//! Validating a scenario as a whole: its header, its models, its MQTT
//! contracts, its devices, scenes and alerts, and then each fault, step
//! and assertion in document order, into the models and time-ordered
//! events a run starts from. The first problem found is the error.
//! Floating-point facts (sensor humidity bounds, comfort ranges, readable
//! register values, payload-constraint comparisons) are handed in by the
//! caller.

use vstd::prelude::*;

use crate::assertions::{ValidatedAssertionKind, ValidatedInlineAssertionKind, ValidatedModbusAssertion, ValidatedMqttAssertion};
use crate::checks::{valid_scenario_name, validate_scenario_header, version_problem};
use crate::device::{
    contact_states, first_missing_target, fixture_levels, fixture_list, input_list, scene_entries_of, ContactModel,
    DeviceModelError, LightingModel,
};
use crate::domain::{sections_read, window_error, DomainRuntimeConfig};
use crate::edge::{configured_edge, edge_config_error, EdgeError, EdgeModel};
use crate::json::{json_or_null, yaml_map_to_json};
use crate::modbus::{device_list, modbus_devices, ModbusModel, ModbusRegisterAccess, RegisterView};
use crate::mqtt_contract::{
    contract_views, first_issue, lemma_first_issue_stable, mqtt_contracts_problem, problem_view, validate_mqtt_contracts,
    verdict_table, ContractProblem, MqttConnectionContract,
};
use crate::ops::{alerts_of, source_contact, AlertView, OpsError, OpsModel};
use crate::run::{in_time_order, law_schedule_orders_stably, ordered, schedule, EventKind, ScheduledEvent, StepKind};
use crate::runtime::{
    Condition, MqttPublishStep, RuntimeDevice, ValidatedIntercomStep, ValidatedMqttPublishStep,
    ValidatedTargetConditionAssertion,
};
use crate::scenario::{
    after_prefix, command_target_of, fault_identifier, fault_kind_of, mqtt_topic_problem, opt_text, valid_identifier,
    AlertId, CommandTarget, ContactId, DeviceId, FaultStep, FixtureId, Identifier, MqttTopic, MqttTopicTemplate,
    ScenarioError, SceneId, SensorTarget, TypedFaultView, ValidatedFaultKind,
};
use crate::strmap::{clone_values, value_views, StrMap};
use crate::text::{chars_of, starts_with, string_from_subrange, to_owned};
use crate::timing::{duration_millis, offset_millis, parse_duration, resolve_time_offset};
use crate::typed::{
    assertion_tag, assertion_tag_of, condition_count, step_tag, step_tags, text_at, AssertionDef, AssertionTag,
    CommandDef, InlineTag, StepDef, StepTag, TargetConditionTag,
};
use crate::value::Value;

verus! {

/// A device as a scenario declares it.
pub struct DeviceDef {
    pub id: String,
    pub device_type: String,
    pub protocol: Option<String>,
    pub state: StrMap<Value>,
}

/// A scenario's sections as plain values.
pub struct ScenarioDef {
    pub version: String,
    pub name: String,
    pub devices: Vec<DeviceDef>,
    pub scenes: StrMap<StrMap<i64>>,
    pub lighting: StrMap<Value>,
    pub contacts: StrMap<Value>,
    pub edge: StrMap<Value>,
    pub wan: StrMap<Value>,
    pub inputs: StrMap<Value>,
    pub commissioning: StrMap<Value>,
    pub alerts: Vec<StrMap<Value>>,
    pub modbus: StrMap<Value>,
    pub contracts: Vec<MqttConnectionContract>,
    pub broker_cloud_enabled: bool,
    pub faults: Vec<FaultStep>,
    pub steps: Vec<StepDef>,
    pub assertions: Vec<AssertionDef>,
}

/// The floating-point facts of one assertion: the bounds of a
/// `between <min> and <max>` condition, finite and ordered, as bits (none
/// when the condition does not read so), and the readable register value
/// a register assertion expects, as bits.
pub struct AssertionFacts {
    pub between: Option<(u64, u64)>,
    pub readable_value: Option<u64>,
}

/// The floating-point facts of a scenario, made by the caller: the field
/// constraint verdicts of each MQTT contract, whether the humidity of each
/// step's sensor reading lies in 0..=100, and each assertion's facts.
pub struct ScenarioFacts {
    pub constraint_verdicts: Vec<Vec<Option<String>>>,
    pub humidity_in_range: Vec<bool>,
    pub assertions: Vec<AssertionFacts>,
}

/// A step whose effect the caller applies: its floats, or the JSON text of
/// a written register value, are the caller's.
pub enum HostStep {
    ModbusWrite { device: String, register: u32, value: Value },
    SensorReading { step: usize, target: String },
    OpsAcknowledge { assignee: Option<String> },
    OpsOther,
    HvacAutoMode,
    AutomationOther,
}

/// A scenario that passed validation, ready to run.
pub struct PreparedScenario {
    pub name: String,
    pub devices: Vec<RuntimeDevice>,
    pub broker_cloud_enabled: bool,
    pub edge: EdgeModel,
    pub modbus: ModbusModel,
    pub lighting: LightingModel,
    pub contacts: ContactModel,
    pub ops: OpsModel,
    pub domain: DomainRuntimeConfig,
    pub events: Vec<ScheduledEvent>,
    pub host_steps: Vec<HostStep>,
}

/// A time expression whose sign, if it has one, is a single byte.
pub open spec fn time_text_ok(e: Seq<char>) -> bool {
    e.len() >= 2 && e[0] == 'T' ==> (e[1] as u32) < 128
}

/// Every time expression of the scenario can be read.
pub open spec fn times_readable(def: ScenarioDef) -> bool {
    &&& forall|i: int|
        0 <= i < def.faults@.len() ==> match (#[trigger] def.faults@[i]).at {
            Some(a) => time_text_ok(a@),
            None => true,
        }
    &&& forall|i: int| 0 <= i < def.steps@.len() ==> time_text_ok((#[trigger] def.steps@[i]).at@)
    &&& forall|i: int| 0 <= i < def.assertions@.len() ==> time_text_ok((#[trigger] def.assertions@[i]).at@)
}

// ---------------------------------------------------------------------------
// What is wrong with a scenario
// ---------------------------------------------------------------------------

/// A device model error by its views.
pub enum DeviceProblem {
    ModbusConfig(Seq<char>),
    UnknownModbusDevice(Seq<char>),
    UnknownModbusRegister(Seq<char>, u32),
    ReadOnlyModbusRegister(Seq<char>, u32),
    LightingConfig(Seq<char>),
    UnknownScene(Seq<char>),
    UnknownFixture(Seq<char>),
    ContactConfig(Seq<char>),
    UnknownContact(Seq<char>),
}

pub open spec fn device_problem_view(e: DeviceModelError) -> DeviceProblem {
    match e {
        DeviceModelError::InvalidModbusConfig(m) => DeviceProblem::ModbusConfig(m@),
        DeviceModelError::UnknownModbusDevice(d) => DeviceProblem::UnknownModbusDevice(d@),
        DeviceModelError::UnknownModbusRegister { device, register } => DeviceProblem::UnknownModbusRegister(
            device@,
            register,
        ),
        DeviceModelError::ReadOnlyModbusRegister { device, register } => DeviceProblem::ReadOnlyModbusRegister(
            device@,
            register,
        ),
        DeviceModelError::InvalidLightingConfig(m) => DeviceProblem::LightingConfig(m@),
        DeviceModelError::UnknownScene(s) => DeviceProblem::UnknownScene(s@),
        DeviceModelError::UnknownFixture(f) => DeviceProblem::UnknownFixture(f@),
        DeviceModelError::InvalidContactConfig(m) => DeviceProblem::ContactConfig(m@),
        DeviceModelError::UnknownContact(c) => DeviceProblem::UnknownContact(c@),
    }
}

/// The first thing wrong with a scenario, as the error reports it.
pub enum ScenarioProblem {
    Version { version: Seq<char>, reason: Seq<char> },
    ScenarioContract { field: Seq<char>, reason: Seq<char> },
    Model(DeviceProblem),
    EdgeConfig(Seq<char>),
    UnknownAlertSource(Seq<char>),
    Contract(ContractProblem),
    Identifier { field: Seq<char>, value: Seq<char> },
    Topic { field: Seq<char>, value: Seq<char>, reason: Seq<char> },
    RelativeTime(Seq<char>),
    Duration(Seq<char>),
    FaultKind { target: Seq<char>, fault_type: Seq<char> },
    StepKind,
    AssertionKind,
    SensorReading(Seq<char>),
    AdapterContract(Seq<char>),
}

/// Whether `e` is the error that reports `p`.
pub open spec fn error_fits(e: ScenarioError, p: ScenarioProblem) -> bool {
    match p {
        ScenarioProblem::Version { version, reason } => e matches ScenarioError::InvalidScenarioVersion {
            version: v,
            reason: r,
        } && v@ == version && r@ == reason,
        ScenarioProblem::ScenarioContract { field, reason } => e matches ScenarioError::ScenarioContract {
            field: f,
            reason: r,
        } && f@ == field && r@ == reason,
        ScenarioProblem::Model(d) => e matches ScenarioError::DeviceModel(x) && device_problem_view(x) == d,
        ScenarioProblem::EdgeConfig(m) => e matches ScenarioError::Edge(EdgeError::InvalidConfig(x)) && x@ == m,
        ScenarioProblem::UnknownAlertSource(src) => e matches ScenarioError::Ops(
            OpsError::UnknownAlertSource(x),
        ) && x@ == src,
        ScenarioProblem::Contract(c) => problem_view(e) == c,
        ScenarioProblem::Identifier { field, value } => e matches ScenarioError::InvalidIdentifier {
            field: f,
            value: v,
        } && f@ == field && v@ == value,
        ScenarioProblem::Topic { field, value, reason } => e matches ScenarioError::InvalidMqttTopic {
            field: f,
            value: v,
            reason: r,
        } && f@ == field && v@ == value && r@ == reason,
        ScenarioProblem::RelativeTime(x) => e matches ScenarioError::InvalidRelativeTime(y) && y@ == x,
        ScenarioProblem::Duration(x) => e matches ScenarioError::InvalidDuration(y) && y@ == x,
        ScenarioProblem::FaultKind { target, fault_type } => e matches ScenarioError::InvalidFaultKind {
            target: t,
            fault_type: f,
        } && t@ == target && f@ == fault_type,
        ScenarioProblem::StepKind => e is InvalidStepKind,
        ScenarioProblem::AssertionKind => e is InvalidAssertionKind,
        ScenarioProblem::SensorReading(x) => e matches ScenarioError::InvalidSensorReading(y) && y@ == x,
        ScenarioProblem::AdapterContract(x) => e matches ScenarioError::InvalidAdapterContract(y) && y@ == x,
    }
}

/// What a check that can fail came to: nothing wrong, or the error that
/// reports the problem.
pub open spec fn reports<T>(r: Result<T, ScenarioError>, p: Option<ScenarioProblem>) -> bool {
    match r {
        Ok(_) => p is None,
        Err(e) => p matches Some(q) && error_fits(e, q),
    }
}

/// The first of two problems.
pub open spec fn or_else(a: Option<ScenarioProblem>, b: Option<ScenarioProblem>) -> Option<ScenarioProblem> {
    match a {
        Some(p) => Some(p),
        None => b,
    }
}

pub open spec fn ident_problem(field: Seq<char>, value: Seq<char>) -> Option<ScenarioProblem> {
    if valid_identifier(value) {
        None
    } else {
        Some(ScenarioProblem::Identifier { field, value })
    }
}

pub open spec fn topic_problem(field: Seq<char>, value: Seq<char>, template: bool) -> Option<ScenarioProblem> {
    match mqtt_topic_problem(value, template) {
        Some(reason) => Some(ScenarioProblem::Topic { field, value, reason }),
        None => None,
    }
}

pub open spec fn time_problem(e: Seq<char>) -> Option<ScenarioProblem> {
    match offset_millis(e) {
        Ok(_) => None,
        Err(true) => Some(ScenarioProblem::RelativeTime(e)),
        Err(false) => Some(ScenarioProblem::Duration(e.subrange(2, e.len() as int))),
    }
}

/// The version, name and assertion count.
pub open spec fn header_problem(def: ScenarioDef) -> Option<ScenarioProblem> {
    match version_problem(def.version@) {
        Some(reason) => Some(ScenarioProblem::Version { version: def.version@, reason }),
        None => if !valid_scenario_name(def.name@) {
            Some(
                ScenarioProblem::ScenarioContract {
                    field: "scenario.name"@,
                    reason: if def.name@.len() == 0 {
                        "must not be empty"@
                    } else {
                        "must match ^[a-z0-9][a-z0-9_]*$"@
                    },
                },
            )
        } else if def.assertions@.len() == 0 {
            Some(
                ScenarioProblem::ScenarioContract {
                    field: "assertions"@,
                    reason: "must contain at least 1 item"@,
                },
            )
        } else {
            None
        },
    }
}

/// The registers the `modbus` section declares, or its first malformed entry.
pub open spec fn modbus_config(def: ScenarioDef) -> Result<Map<Seq<char>, Map<u32, RegisterView>>, Seq<char>> {
    match device_list(value_views(def.modbus@)) {
        Some(items) => modbus_devices(items),
        None => Ok(Map::empty()),
    }
}

/// The fixture levels the `lighting` section declares, or its first
/// malformed entry.
pub open spec fn lighting_levels(def: ScenarioDef) -> Result<Map<Seq<char>, i64>, Seq<char>> {
    match fixture_list(def.lighting@.map_values(|v: Value| v@)) {
        Some(items) => fixture_levels(items),
        None => Ok(Map::empty()),
    }
}

/// The contact states the `contacts` section declares, or its first
/// malformed entry.
pub open spec fn contact_config(def: ScenarioDef) -> Result<Map<Seq<char>, Seq<char>>, Seq<char>> {
    match input_list(def.contacts@.map_values(|v: Value| v@)) {
        Some(items) => contact_states(items),
        None => Ok(Map::empty()),
    }
}

pub open spec fn alert_views(def: ScenarioDef) -> Seq<AlertView> {
    alerts_of(def.alerts@.map_values(|c: StrMap<Value>| c@.map_values(|v: Value| v@)))
}

/// An alert whose source is not `contact.<id>` of a declared contact.
pub open spec fn source_checker(alerts: Seq<AlertView>, contacts: Map<Seq<char>, Seq<char>>) -> spec_fn(
    int,
) -> Option<Seq<char>> {
    |i: int|
        match source_contact(alerts[i].source) {
            Some(c) => if contacts.contains_key(c) {
                None
            } else {
                Some(alerts[i].source)
            },
            None => Some(alerts[i].source),
        }
}

/// The Modbus, lighting, contact and edge sections, the scene targets and
/// the alert sources, in that order.
pub open spec fn model_problem(def: ScenarioDef) -> Option<ScenarioProblem> {
    if modbus_config(def) is Err {
        Some(ScenarioProblem::Model(DeviceProblem::ModbusConfig(modbus_config(def)->Err_0)))
    } else if lighting_levels(def) is Err {
        Some(ScenarioProblem::Model(DeviceProblem::LightingConfig(lighting_levels(def)->Err_0)))
    } else if contact_config(def) is Err {
        Some(ScenarioProblem::Model(DeviceProblem::ContactConfig(contact_config(def)->Err_0)))
    } else if edge_config_error(def.edge@.map_values(|v: Value| v@)) is Some {
        Some(ScenarioProblem::EdgeConfig(edge_config_error(def.edge@.map_values(|v: Value| v@))->Some_0))
    } else {
        match first_missing_target(scene_entries_of(def.scenes), lighting_levels(def)->Ok_0) {
            Some(f) => Some(ScenarioProblem::Model(DeviceProblem::UnknownFixture(f))),
            None => match first_issue(
                alert_views(def).len(),
                source_checker(alert_views(def), contact_config(def)->Ok_0),
            ) {
                Some(src) => Some(ScenarioProblem::UnknownAlertSource(src)),
                None => None,
            },
        }
    }
}

pub open spec fn contract_text_problem(c: MqttConnectionContract) -> Option<ScenarioProblem> {
    or_else(
        ident_problem("mqtt.contracts[].name"@, c.name@),
        or_else(
            topic_problem("mqtt.contracts[].command_topic"@, c.command_topic@, true),
            topic_problem("mqtt.contracts[].state_topic"@, c.state_topic@, true),
        ),
    )
}

pub open spec fn contract_text_checker(cs: Seq<MqttConnectionContract>) -> spec_fn(int) -> Option<ScenarioProblem> {
    |i: int| contract_text_problem(cs[i])
}

/// The MQTT contracts as a whole, then each one's name and topics.
pub open spec fn contracts_problem(def: ScenarioDef, facts: ScenarioFacts) -> Option<ScenarioProblem> {
    match mqtt_contracts_problem(contract_views(def.contracts@), verdict_table(facts.constraint_verdicts@)) {
        Some(c) => Some(ScenarioProblem::Contract(c)),
        None => first_issue(def.contracts@.len(), contract_text_checker(def.contracts@)),
    }
}

pub open spec fn device_def_problem(d: DeviceDef) -> Option<ScenarioProblem> {
    or_else(
        ident_problem("devices[].id"@, d.id@),
        or_else(
            ident_problem("devices[].type"@, d.device_type@),
            match d.protocol {
                Some(p) => ident_problem("devices[].protocol"@, p@),
                None => None,
            },
        ),
    )
}

/// The device a run holds for a declared device: its id and protocol, and
/// each state value in its JSON form.
pub open spec fn device_fits(r: RuntimeDevice, d: DeviceDef) -> bool {
    &&& r.id@ == d.id@
    &&& opt_text(r.protocol) == opt_text(d.protocol)
    &&& r.state@.dom() == d.state@.dom()
    &&& forall|k: Seq<char>| #[trigger] r.state@.contains_key(k) ==> r.state@[k]@ == json_or_null(d.state@[k]@)
}

pub open spec fn device_checker(ds: Seq<DeviceDef>) -> spec_fn(int) -> Option<ScenarioProblem> {
    |i: int| device_def_problem(ds[i])
}

pub open spec fn fixture_key_checker(keys: Seq<Seq<char>>) -> spec_fn(int) -> Option<ScenarioProblem> {
    |j: int| ident_problem("scenes[].fixtures.<id>"@, keys[j])
}

pub open spec fn scene_def_problem(id: Seq<char>, fixtures: StrMap<i64>) -> Option<ScenarioProblem> {
    or_else(
        ident_problem("scenes.<id>"@, id),
        first_issue(fixtures.key_seq().len(), fixture_key_checker(fixtures.key_seq())),
    )
}

pub open spec fn scene_checker(scenes: Seq<(Seq<char>, StrMap<i64>)>) -> spec_fn(int) -> Option<ScenarioProblem> {
    |i: int| scene_def_problem(scenes[i].0, scenes[i].1)
}

pub open spec fn alert_id_checker(alerts: Seq<StrMap<Value>>) -> spec_fn(int) -> Option<ScenarioProblem> {
    |i: int|
        match text_at(alerts[i]@, "id"@) {
            Some(id) => ident_problem("alerts[].id"@, id),
            None => None,
        }
}

/// Device, scene, fixture and alert identifiers.
pub open spec fn ids_problem(def: ScenarioDef) -> Option<ScenarioProblem> {
    or_else(
        first_issue(def.devices@.len(), device_checker(def.devices@)),
        or_else(
            first_issue(def.scenes.entry_seq().len(), scene_checker(def.scenes.entry_seq())),
            first_issue(def.alerts@.len(), alert_id_checker(def.alerts@)),
        ),
    )
}

/// Everything checked before the faults, steps and assertions.
pub open spec fn config_problem(def: ScenarioDef, facts: ScenarioFacts) -> Option<ScenarioProblem> {
    or_else(
        header_problem(def),
        or_else(model_problem(def), or_else(contracts_problem(def, facts), ids_problem(def))),
    )
}

/// A fault's duration, kind, identifier, topic and fixture.
#[verifier::opaque]
pub open spec fn fault_def_problem(f: FaultStep, levels: Map<Seq<char>, i64>) -> Option<ScenarioProblem> {
    let duration = match f.duration {
        Some(d) => if duration_millis(d@) is None {
            Some(ScenarioProblem::Duration(d@))
        } else {
            None
        },
        None => None,
    };
    let kind = match fault_kind_of(f.target@, f.fault_type@, opt_text(f.topic), f.count) {
        None => Some(ScenarioProblem::FaultKind { target: f.target@, fault_type: f.fault_type@ }),
        Some(k) => match fault_identifier(k) {
            Some((field, id)) => ident_problem(field, id),
            None => match k {
                TypedFaultView::MqttDuplicateDelivery { topic: Some(t), .. } => topic_problem(
                    "faults[].topic"@,
                    t,
                    false,
                ),
                _ => None,
            },
        },
    };
    let fixture = match after_prefix(f.target@, "dali.fixture."@) {
        Some(x) => if levels.contains_key(x) {
            None
        } else {
            Some(ScenarioProblem::Model(DeviceProblem::UnknownFixture(x)))
        },
        None => None,
    };
    or_else(duration, or_else(kind, fixture))
}

pub open spec fn fault_checker(faults: Seq<FaultStep>, levels: Map<Seq<char>, i64>) -> spec_fn(int) -> Option<
    ScenarioProblem,
> {
    |i: int|
        or_else(
            match faults[i].at {
                Some(a) => time_problem(a@),
                None => None,
            },
            fault_def_problem(faults[i], levels),
        )
}

/// The models a step is checked against.
pub struct ModelsView {
    pub modbus: Map<Seq<char>, Map<u32, RegisterView>>,
    pub levels: Map<Seq<char>, i64>,
    pub scenes: Set<Seq<char>>,
    pub contacts: Map<Seq<char>, Seq<char>>,
}

pub open spec fn models_of(def: ScenarioDef) -> ModelsView {
    ModelsView {
        modbus: modbus_config(def)->Ok_0,
        levels: lighting_levels(def)->Ok_0,
        scenes: def.scenes@.dom(),
        contacts: contact_config(def)->Ok_0,
    }
}

pub open spec fn command_problem(c: CommandDef, scenes: Set<Seq<char>>) -> Option<ScenarioProblem> {
    or_else(
        match after_prefix(c.target@, "scene."@) {
            Some(scene) => or_else(
                ident_problem("steps[].command.target"@, scene),
                if scenes.contains(scene) {
                    None
                } else {
                    Some(ScenarioProblem::Model(DeviceProblem::UnknownScene(scene)))
                },
            ),
            None => None,
        },
        or_else(
            match command_target_of(c.target@) {
                Ok(_) => None,
                Err(v) => Some(ScenarioProblem::Identifier { field: "steps[].command.target"@, value: v }),
            },
            ident_problem("steps[].command.action"@, c.action@),
        ),
    )
}

pub open spec fn writable_problem(
    modbus: Map<Seq<char>, Map<u32, RegisterView>>,
    device: Seq<char>,
    register: u32,
) -> Option<ScenarioProblem> {
    if !modbus.contains_key(device) {
        Some(ScenarioProblem::Model(DeviceProblem::UnknownModbusDevice(device)))
    } else if !modbus[device].contains_key(register) {
        Some(ScenarioProblem::Model(DeviceProblem::UnknownModbusRegister(device, register)))
    } else if modbus[device][register].access == ModbusRegisterAccess::ReadOnly {
        Some(ScenarioProblem::Model(DeviceProblem::ReadOnlyModbusRegister(device, register)))
    } else {
        None
    }
}

/// What is wrong with the `i`-th step, its time aside.
#[verifier::opaque]
pub open spec fn step_def_problem(i: int, s: StepDef, humidity: Seq<bool>, m: ModelsView) -> Option<ScenarioProblem> {
    if step_tags(s).len() != 1 {
        Some(ScenarioProblem::StepKind)
    } else {
        match step_tags(s)[0] {
            StepTag::Event => None,
            StepTag::Command => command_problem(s.command->Some_0, m.scenes),
            StepTag::ModbusWrite => {
                let w = s.modbus_write->Some_0;
                or_else(
                    ident_problem("steps[].modbus_write.device"@, w.device@),
                    writable_problem(m.modbus, w.device@, w.register),
                )
            },
            StepTag::MqttPublish => {
                let p = s.mqtt_publish->Some_0;
                or_else(
                    ident_problem("steps[].mqtt_publish.client"@, p.client@),
                    topic_problem("steps[].mqtt_publish.topic"@, p.topic@, false),
                )
            },
            StepTag::Fault => fault_def_problem(s.fault->Some_0, m.levels),
            StepTag::Contact => {
                let c = s.contact->Some_0;
                or_else(
                    ident_problem("steps[].contact.id"@, c.id@),
                    or_else(
                        ident_problem("steps[].contact.state"@, c.state@),
                        if m.contacts.contains_key(c.id@) {
                            None
                        } else {
                            Some(ScenarioProblem::Model(DeviceProblem::UnknownContact(c.id@)))
                        },
                    ),
                )
            },
            StepTag::Intercom => {
                let t = s.intercom->Some_0;
                or_else(
                    ident_problem("steps[].intercom.id"@, t.id@),
                    or_else(
                        ident_problem("steps[].intercom.event"@, t.event@),
                        ident_problem("steps[].intercom.outcome"@, t.outcome@),
                    ),
                )
            },
            StepTag::SensorReading => if !(i < humidity.len() && humidity[i]) {
                Some(
                    ScenarioProblem::SensorReading(
                        "steps[].sensor_reading.humidity must be between 0 and 100"@,
                    ),
                )
            } else {
                ident_problem("steps[].sensor_reading.target"@, s.sensor_reading->Some_0@)
            },
            StepTag::Ops => {
                let ops = s.ops->Some_0@;
                if text_at(ops, "action"@) == Some("acknowledge"@) {
                    or_else(
                        match text_at(ops, "alert_id"@) {
                            Some(a) => ident_problem("steps[].ops.alert_id"@, a),
                            None => None,
                        },
                        match text_at(ops, "assignee"@) {
                            Some(a) => ident_problem("steps[].ops.assignee"@, a),
                            None => None,
                        },
                    )
                } else {
                    None
                }
            },
            StepTag::Automation => None,
        }
    }
}

pub open spec fn step_checker(steps: Seq<StepDef>, humidity: Seq<bool>, m: ModelsView) -> spec_fn(int) -> Option<
    ScenarioProblem,
> {
    |i: int| or_else(time_problem(steps[i].at@), step_def_problem(i, steps[i], humidity, m))
}

/// The bounds handed in for the `i`-th assertion.
pub open spec fn between_fact(facts: Seq<AssertionFacts>, i: int) -> Option<(u64, u64)> {
    if 0 <= i < facts.len() {
        facts[i].between
    } else {
        None
    }
}

/// What is wrong with the `i`-th assertion, its time aside.
#[verifier::opaque]
pub open spec fn assertion_def_problem(
    i: int,
    a: AssertionDef,
    facts: Seq<AssertionFacts>,
    m: ModelsView,
) -> Option<ScenarioProblem> {
    if condition_count(a) != 1 || assertion_tag_of(a) is None {
        Some(ScenarioProblem::AssertionKind)
    } else {
        match assertion_tag_of(a)->Some_0 {
            AssertionTag::MqttRetained => topic_problem("assertions[].mqtt.topic"@, a.mqtt->Some_0.topic@, false),
            AssertionTag::ModbusRegister => {
                let r = a.modbus->Some_0;
                or_else(
                    ident_problem("assertions[].modbus.device"@, r.device@),
                    if m.modbus.contains_key(r.device@) && m.modbus[r.device@].contains_key(r.register) {
                        None
                    } else {
                        Some(ScenarioProblem::Model(DeviceProblem::UnknownModbusRegister(r.device@, r.register)))
                    },
                )
            },
            AssertionTag::TargetCondition(TargetConditionTag::LivingAreaDiscomfortIndex) => {
                let target = match a.target {
                    Some(t) => t@,
                    None => Seq::empty(),
                };
                or_else(
                    ident_problem("assertions[].target"@, target),
                    if between_fact(facts, i) is None {
                        Some(ScenarioProblem::AssertionKind)
                    } else {
                        None
                    },
                )
            },
            AssertionTag::Inline(InlineTag::SceneConsistencyComplete) => {
                let scene = match text_at(a.inline_assert->Some_0@, "scene"@) {
                    Some(t) => t,
                    None => Seq::empty(),
                };
                or_else(
                    ident_problem("assertions[].assert.scene"@, scene),
                    if m.scenes.contains(scene) {
                        None
                    } else {
                        Some(ScenarioProblem::Model(DeviceProblem::UnknownScene(scene)))
                    },
                )
            },
            _ => None,
        }
    }
}

pub open spec fn assertion_checker(as_: Seq<AssertionDef>, facts: Seq<AssertionFacts>, m: ModelsView) -> spec_fn(
    int,
) -> Option<ScenarioProblem> {
    |i: int| or_else(time_problem(as_[i].at@), assertion_def_problem(i, as_[i], facts, m))
}

/// The failover windows of the `edge` and `wan` sections.
pub open spec fn domain_problem(def: ScenarioDef) -> Option<ScenarioProblem> {
    match window_error(def.edge@) {
        Some(w) => Some(ScenarioProblem::Duration(w)),
        None => match window_error(def.wan@) {
            Some(w) => Some(ScenarioProblem::Duration(w)),
            None => None,
        },
    }
}

/// The first thing wrong with a scenario: its configuration, then each
/// fault, step and assertion in document order, then its failover windows.
#[verifier::opaque]
pub open spec fn scenario_problem(def: ScenarioDef, facts: ScenarioFacts) -> Option<ScenarioProblem> {
    or_else(
        config_problem(def, facts),
        or_else(
            first_issue(def.faults@.len(), fault_checker(def.faults@, models_of(def).levels)),
            or_else(
                first_issue(
                    def.steps@.len(),
                    step_checker(def.steps@, facts.humidity_in_range@, models_of(def)),
                ),
                or_else(
                    first_issue(
                        def.assertions@.len(),
                        assertion_checker(def.assertions@, facts.assertions@, models_of(def)),
                    ),
                    domain_problem(def),
                ),
            ),
        ),
    )
}

// ---------------------------------------------------------------------------
// The events a scenario declares
// ---------------------------------------------------------------------------

/// The time a valid time expression stands for.
pub open spec fn at_of(e: Seq<char>) -> int {
    offset_millis(e)->Ok_0
}

/// A validated fault that is the one a fault step declares.
pub open spec fn fault_kind_matches(k: ValidatedFaultKind, f: FaultStep) -> bool {
    &&& k.spec_target() == f.target@
    &&& k.spec_fault_type() == f.fault_type@
    &&& k matches ValidatedFaultKind::MqttDuplicateDelivery { topic, count } ==> count == f.count && match (
        topic,
        f.topic,
    ) {
        (Some(t), Some(given)) => t@ == given@,
        (None, None) => true,
        _ => false,
    }
}

/// The step kind a step names.
#[verifier::opaque]
pub open spec fn step_kind_fits(k: StepKind, s: StepDef) -> bool {
    match step_tags(s)[0] {
        StepTag::Event => k matches StepKind::Event(x) && x@ == s.event->Some_0@,
        StepTag::Command => k matches StepKind::Command(t, action) && command_target_of(
            s.command->Some_0.target@,
        ) == Ok::<(bool, Seq<char>), Seq<char>>((t.spec_is_scene(), t.spec_id())) && action@
            == s.command->Some_0.action@,
        StepTag::MqttPublish => k matches StepKind::MqttPublish(p) && p.client@ == s.mqtt_publish->Some_0.client@
            && p.topic@ == s.mqtt_publish->Some_0.topic@ && value_views(p.payload@) == value_views(
            s.mqtt_publish->Some_0.payload@,
        ),
        StepTag::Fault => k matches StepKind::Fault(v) && fault_kind_matches(v, s.fault->Some_0),
        StepTag::Contact => k matches StepKind::Contact(id, state) && id.0@ == s.contact->Some_0.id@ && state@
            == s.contact->Some_0.state@,
        StepTag::Intercom => k matches StepKind::Intercom(v) && v.id@ == s.intercom->Some_0.id@ && v.event@
            == s.intercom->Some_0.event@ && v.outcome@ == s.intercom->Some_0.outcome@ && opt_text(v.fallback)
            == opt_text(s.intercom->Some_0.fallback),
        _ => k is Host,
    }
}

/// The readable register value handed in for the `i`-th assertion.
pub open spec fn readable_fact(facts: Seq<AssertionFacts>, i: int, has_readable_value: bool) -> Option<u64> {
    if has_readable_value && 0 <= i < facts.len() {
        facts[i].readable_value
    } else {
        None
    }
}

/// The condition a target-condition tag reads.
pub open spec fn target_condition_fits(
    k: ValidatedTargetConditionAssertion,
    t: TargetConditionTag,
    between: Option<(u64, u64)>,
) -> bool {
    match t {
        TargetConditionTag::EdgeSecondaryActive => k == ValidatedTargetConditionAssertion::EdgeSecondary {
            condition: Condition::Active,
        },
        TargetConditionTag::MqttLocalAvailable => k == ValidatedTargetConditionAssertion::MqttLocal {
            condition: Condition::Available,
        },
        TargetConditionTag::WanBackupActive => k == ValidatedTargetConditionAssertion::WanBackup {
            condition: Condition::Active,
        },
        TargetConditionTag::LivingAreaDiscomfortIndex => between matches Some((min, max)) && k
            == ValidatedTargetConditionAssertion::LivingAreaDiscomfortIndex {
            condition: Condition::Between { min, max },
        },
        TargetConditionTag::UserOverrideFalse => k == ValidatedTargetConditionAssertion::UserOverride {
            condition: Condition::False,
        },
        TargetConditionTag::GuestExperienceUnaffected => k == ValidatedTargetConditionAssertion::GuestExperience {
            condition: Condition::Unaffected,
        },
    }
}

/// The inline check an inline tag names.
pub open spec fn inline_fits(k: ValidatedInlineAssertionKind, t: InlineTag, a: AssertionDef) -> bool {
    match t {
        InlineTag::SceneConsistencyComplete => k matches ValidatedInlineAssertionKind::SceneConsistencyComplete(
            scene,
        ) && Some(scene.0@) == text_at(a.inline_assert->Some_0@, "scene"@),
        InlineTag::AccessControlDriftDetected => k is AccessControlDriftDetected,
        InlineTag::CommissioningChecklistGenerated => k is CommissioningChecklistGenerated,
        InlineTag::IntercomRelaySafeEvidence => k is IntercomRelaySafeEvidence,
        InlineTag::NetworkControlPanelFaultsObserved => k is NetworkControlPanelFaultsObserved,
        InlineTag::ComfortTimeseriesObserved => k is ComfortTimeseriesObserved,
    }
}

/// The assertion kind the `i`-th assertion names.
#[verifier::opaque]
pub open spec fn assertion_kind_fits(
    k: ValidatedAssertionKind,
    a: AssertionDef,
    i: int,
    facts: Seq<AssertionFacts>,
) -> bool {
    match assertion_tag_of(a)->Some_0 {
        AssertionTag::MqttRetained => k matches ValidatedAssertionKind::MqttRetained(m) && m.topic@
            == a.mqtt->Some_0.topic@ && value_views(m.retained@) == value_views(a.mqtt->Some_0.retained@),
        AssertionTag::ModbusRegister => k matches ValidatedAssertionKind::ModbusRegister(m) && m.device.0@
            == a.modbus->Some_0.device@ && m.register == a.modbus->Some_0.register && match (
            m.value,
            a.modbus->Some_0.value,
        ) {
            (Some(x), Some(y)) => x@ == y@,
            (None, None) => true,
            _ => false,
        } && m.readable_value == readable_fact(facts, i, a.modbus->Some_0.has_readable_value),
        AssertionTag::GuestExperienceField => k == ValidatedAssertionKind::GuestExperienceField(
            Condition::Unaffected,
        ),
        AssertionTag::Ops => k matches ValidatedAssertionKind::Ops(o) && value_views(o@) == value_views(
            a.ops->Some_0@,
        ),
        AssertionTag::TargetCondition(t) => k matches ValidatedAssertionKind::TargetCondition(c)
            && target_condition_fits(c, t, between_fact(facts, i)),
        AssertionTag::Inline(t) => k matches ValidatedAssertionKind::Inline(x) && inline_fits(x, t, a),
    }
}

pub open spec fn fault_event_ok(e: ScheduledEvent, f: FaultStep) -> bool {
    &&& e.order == 0
    &&& e.at == match f.at {
        Some(a) => at_of(a@),
        None => 0,
    }
    &&& e.kind matches EventKind::GlobalFault(k) && fault_kind_matches(k, f)
}

/// The host step the `i`-th step hands to the caller.
#[verifier::opaque]
pub open spec fn host_step_fits(h: HostStep, i: int, s: StepDef) -> bool {
    match step_tags(s)[0] {
        StepTag::ModbusWrite => h matches HostStep::ModbusWrite { device, register, value } && device@
            == s.modbus_write->Some_0.device@ && register == s.modbus_write->Some_0.register && value@
            == s.modbus_write->Some_0.value@,
        StepTag::SensorReading => h matches HostStep::SensorReading { step, target } && step == i && target@
            == s.sensor_reading->Some_0@,
        StepTag::Ops => if text_at(s.ops->Some_0@, "action"@) == Some("acknowledge"@) {
            h matches HostStep::OpsAcknowledge { assignee } && opt_text(assignee) == text_at(
                s.ops->Some_0@,
                "assignee"@,
            )
        } else {
            h is OpsOther
        },
        StepTag::Automation => if text_at(s.automation->Some_0@, "type"@) == Some("hvac_auto_mode"@) {
            h is HvacAutoMode
        } else {
            h is AutomationOther
        },
        _ => false,
    }
}

/// The `i`-th step's event; a step whose effect the caller applies points
/// into `hs`, the steps handed to the caller.
pub open spec fn step_event_ok(e: ScheduledEvent, s: StepDef, i: int, hs: Seq<HostStep>) -> bool {
    &&& e.order == 0
    &&& e.at == at_of(s.at@)
    &&& e.kind matches EventKind::Step(k) && step_kind_fits(k, s)
    &&& e.kind matches EventKind::Step(StepKind::Host(h)) ==> h < hs.len() && host_step_fits(hs[h as int], i, s)
}

pub open spec fn assertion_event_ok(e: ScheduledEvent, a: AssertionDef, i: int, facts: Seq<AssertionFacts>) -> bool {
    &&& e.order == 1
    &&& e.at == at_of(a.at@)
    &&& e.kind matches EventKind::Assertion(k) && assertion_kind_fits(k, a, i, facts)
}

/// The events of a scenario in document order: each fault at its time
/// (the start when it has none), then each step, then each assertion;
/// faults and steps come first among events at the same time.
pub open spec fn declared_events(
    d: Seq<ScheduledEvent>,
    def: ScenarioDef,
    facts: ScenarioFacts,
    hs: Seq<HostStep>,
) -> bool {
    let nf = def.faults@.len() as int;
    let ns = def.steps@.len() as int;
    &&& d.len() == nf + ns + def.assertions@.len()
    &&& forall|i: int| 0 <= i < nf ==> fault_event_ok(#[trigger] d[i], def.faults@[i])
    &&& forall|i: int| nf <= i < nf + ns ==> step_event_ok(#[trigger] d[i], def.steps@[i - nf], i - nf, hs)
    &&& forall|i: int|
        nf + ns <= i < d.len() ==> assertion_event_ok(
            #[trigger] d[i],
            def.assertions@[i - nf - ns],
            i - nf - ns,
            facts.assertions@,
        )
}

/// The views of the models a step or assertion is checked against.
pub open spec fn models_view(modbus: ModbusModel, lighting: LightingModel, contacts: ContactModel) -> ModelsView {
    ModelsView { modbus: modbus@, levels: lighting@.levels, scenes: lighting@.scenes.dom(), contacts: contacts@ }
}

proof fn lemma_first_issue_all_none<T>(n: nat, check: spec_fn(int) -> Option<T>)
    requires
        forall|j: int| 0 <= j < n ==> #[trigger] check(j) is None,
    ensures
        first_issue(n, check) is None,
    decreases n,
{
    if n > 0 {
        lemma_first_issue_all_none((n - 1) as nat, check);
    }
}

proof fn lemma_first_issue_at<T>(i: int, n: nat, check: spec_fn(int) -> Option<T>)
    requires
        0 <= i < n,
        forall|j: int| 0 <= j < i ==> #[trigger] check(j) is None,
        check(i) is Some,
    ensures
        first_issue(n, check) == check(i),
{
    lemma_first_issue_all_none(i as nat, check);
    assert(first_issue((i + 1) as nat, check) == check(i));
    lemma_first_issue_stable((i + 1) as nat, n, check);
}

/// The text after `prefix`, when `s` starts with it.
fn strip_prefix(s: &str, prefix: &str) -> (r: Option<String>)
    ensures
        match r {
            Some(t) => after_prefix(s@, prefix@) == Some(t@),
            None => after_prefix(s@, prefix@) is None,
        },
{
    let cs = chars_of(s);
    let ps = chars_of(prefix);
    if starts_with(&cs, &ps) {
        Some(string_from_subrange(&cs, ps.len(), cs.len()))
    } else {
        None
    }
}

/// Checks a fault's duration, kind, identifier and fixture.
fn fault_kind(fault: &FaultStep, lighting: &LightingModel) -> (r: Result<ValidatedFaultKind, ScenarioError>)
    ensures
        reports(r, fault_def_problem(*fault, lighting@.levels)),
        r matches Ok(k) ==> fault_kind_matches(k, *fault),
{
    proof {
        reveal(fault_def_problem);
    }
    if let Some(duration) = &fault.duration {
        match parse_duration(duration.as_str()) {
            Ok(_) => {},
            Err(e) => {
                return Err(e);
            },
        }
    }
    let kind = match ValidatedFaultKind::try_from_fault(fault) {
        Ok(k) => k,
        Err(e) => {
            return Err(e);
        },
    };
    if let Some(fixture) = strip_prefix(fault.target.as_str(), "dali.fixture.") {
        match lighting.assert_fixture_exists(fixture.as_str()) {
            Ok(()) => {},
            Err(e) => {
                return Err(ScenarioError::DeviceModel(e));
            },
        }
    }
    Ok(kind)
}

fn clone_publish(p: &MqttPublishStep) -> (r: MqttPublishStep)
    ensures
        r.client@ == p.client@,
        r.topic@ == p.topic@,
        value_views(r.payload@) == value_views(p.payload@),
{
    MqttPublishStep { client: p.client.clone(), topic: p.topic.clone(), payload: clone_values(&p.payload) }
}

/// The text under `key`, when it is text.
fn text_of(m: &StrMap<Value>, key: &str) -> (r: Option<String>)
    ensures
        opt_text(r) == text_at(m@, key@),
{
    match m.get(key) {
        Some(v) => match v.as_str() {
            Some(s) => Some(s.clone()),
            None => None,
        },
        None => None,
    }
}

/// Checks the `index`-th step, its time aside, and reads what it does.
/// Steps whose effect the caller applies are added to `host_steps`.
fn step_kind(
    index: usize,
    step: &StepDef,
    facts: &ScenarioFacts,
    modbus: &ModbusModel,
    lighting: &LightingModel,
    contacts: &ContactModel,
    host_steps: &mut Vec<HostStep>,
) -> (r: Result<StepKind, ScenarioError>)
    ensures
        reports(r, step_def_problem(index as int, *step, facts.humidity_in_range@, models_view(*modbus, *lighting, *contacts))),
        r matches Ok(k) ==> step_kind_fits(k, *step),
        match r {
            Ok(StepKind::Host(h)) => h == old(host_steps)@.len() && final(host_steps)@ == old(host_steps)@.push(
                final(host_steps)@[h as int],
            ) && host_step_fits(final(host_steps)@[h as int], index as int, *step),
            _ => final(host_steps)@ == old(host_steps)@,
        },
{
    proof {
        reveal(step_def_problem);
        reveal(step_kind_fits);
        reveal(host_step_fits);
    }
    let tag = match step_tag(step) {
        Ok(t) => t,
        Err(e) => {
            return Err(e);
        },
    };
    match tag {
        StepTag::Event => match &step.event {
            Some(e) => Ok(StepKind::Event(e.clone())),
            None => Err(ScenarioError::InvalidStepKind),
        },
        StepTag::Command => match &step.command {
            Some(command) => {
                if let Some(scene) = strip_prefix(command.target.as_str(), "scene.") {
                    SceneId::parse("steps[].command.target", scene.as_str())?;
                    model(lighting.assert_scene_exists(scene.as_str()))?;
                }
                let target = CommandTarget::parse(command.target.as_str())?;
                let action = Identifier::parse("steps[].command.action", command.action.as_str())?;
                Ok(StepKind::Command(target, to_owned(action.as_str())))
            },
            None => Err(ScenarioError::InvalidStepKind),
        },
        StepTag::ModbusWrite => match &step.modbus_write {
            Some(write) => {
                let device = DeviceId::parse("steps[].modbus_write.device", write.device.as_str())?;
                model(modbus.assert_writable(device.as_str(), write.register))?;
                host_steps.push(
                    HostStep::ModbusWrite {
                        device: to_owned(device.as_str()),
                        register: write.register,
                        value: write.value.deep_clone(),
                    },
                );
                Ok(StepKind::Host(host_steps.len() - 1))
            },
            None => Err(ScenarioError::InvalidStepKind),
        },
        StepTag::MqttPublish => match &step.mqtt_publish {
            Some(p) => Ok(StepKind::MqttPublish(ValidatedMqttPublishStep::try_from_step(clone_publish(p))?)),
            None => Err(ScenarioError::InvalidStepKind),
        },
        StepTag::Fault => match &step.fault {
            Some(fault) => Ok(StepKind::Fault(fault_kind(fault, lighting)?)),
            None => Err(ScenarioError::InvalidStepKind),
        },
        StepTag::Contact => match &step.contact {
            Some(contact) => {
                let id = ContactId::parse("steps[].contact.id", contact.id.as_str())?;
                let state = Identifier::parse("steps[].contact.state", contact.state.as_str())?;
                if !contacts.has_contact(id.as_str()) {
                    return Err(ScenarioError::DeviceModel(DeviceModelError::UnknownContact(to_owned(id.as_str()))));
                }
                Ok(StepKind::Contact(id, state))
            },
            None => Err(ScenarioError::InvalidStepKind),
        },
        StepTag::Intercom => match &step.intercom {
            Some(intercom) => Ok(StepKind::Intercom(ValidatedIntercomStep::try_from_step(intercom)?)),
            None => Err(ScenarioError::InvalidStepKind),
        },
        StepTag::SensorReading => match &step.sensor_reading {
            Some(target) => {
                let in_range = index < facts.humidity_in_range.len() && facts.humidity_in_range[index];
                if !in_range {
                    return Err(
                        ScenarioError::InvalidSensorReading(
                            to_owned("steps[].sensor_reading.humidity must be between 0 and 100"),
                        ),
                    );
                }
                let target = SensorTarget::parse(target.as_str())?;
                host_steps.push(HostStep::SensorReading { step: index, target: to_owned(target.as_str()) });
                Ok(StepKind::Host(host_steps.len() - 1))
            },
            None => Err(ScenarioError::InvalidStepKind),
        },
        StepTag::Ops => match &step.ops {
            Some(ops) => {
                let action = text_of(ops, "action");
                let acknowledge = match &action {
                    Some(a) => crate::text::str_eq(a.as_str(), "acknowledge"),
                    None => false,
                };
                let host = if acknowledge {
                    if let Some(alert_id) = text_of(ops, "alert_id") {
                        AlertId::parse("steps[].ops.alert_id", alert_id.as_str())?;
                    }
                    let assignee = match text_of(ops, "assignee") {
                        Some(a) => Some(to_owned(Identifier::parse("steps[].ops.assignee", a.as_str())?.as_str())),
                        None => None,
                    };
                    HostStep::OpsAcknowledge { assignee }
                } else {
                    HostStep::OpsOther
                };
                host_steps.push(host);
                Ok(StepKind::Host(host_steps.len() - 1))
            },
            None => Err(ScenarioError::InvalidStepKind),
        },
        StepTag::Automation => match &step.automation {
            Some(automation) => {
                let hvac = match text_of(automation, "type") {
                    Some(t) => crate::text::str_eq(t.as_str(), "hvac_auto_mode"),
                    None => false,
                };
                host_steps.push(
                    if hvac {
                        HostStep::HvacAutoMode
                    } else {
                        HostStep::AutomationOther
                    },
                );
                Ok(StepKind::Host(host_steps.len() - 1))
            },
            None => Err(ScenarioError::InvalidStepKind),
        },
    }
}

fn clone_map(m: &StrMap<Value>) -> (r: StrMap<Value>)
    ensures
        value_views(r@) == value_views(m@),
{
    clone_values(m)
}

/// Checks the `index`-th assertion, its time aside, and reads what it
/// checks.
fn assertion_kind(
    index: usize,
    a: &AssertionDef,
    facts: &ScenarioFacts,
    modbus: &ModbusModel,
    lighting: &LightingModel,
    contacts: &ContactModel,
) -> (r: Result<ValidatedAssertionKind, ScenarioError>)
    ensures
        reports(r, assertion_def_problem(index as int, *a, facts.assertions@, models_view(*modbus, *lighting, *contacts))),
        r matches Ok(k) ==> assertion_kind_fits(k, *a, index as int, facts.assertions@),
{
    proof {
        reveal(assertion_def_problem);
        reveal(assertion_kind_fits);
    }
    let (tag, scene) = match assertion_tag(a) {
        Ok(x) => x,
        Err(e) => {
            return Err(e);
        },
    };
    match tag {
        AssertionTag::MqttRetained => match &a.mqtt {
            Some(mqtt) => Ok(
                ValidatedAssertionKind::MqttRetained(
                    ValidatedMqttAssertion {
                        topic: MqttTopic::parse("assertions[].mqtt.topic", mqtt.topic.as_str())?,
                        retained: clone_map(&mqtt.retained),
                    },
                ),
            ),
            None => Err(ScenarioError::InvalidAssertionKind),
        },
        AssertionTag::ModbusRegister => match &a.modbus {
            Some(m) => {
                let device = DeviceId::parse("assertions[].modbus.device", m.device.as_str())?;
                if !modbus.has_register(device.as_str(), m.register) {
                    return Err(
                        ScenarioError::DeviceModel(
                            DeviceModelError::UnknownModbusRegister {
                                device: to_owned(device.as_str()),
                                register: m.register,
                            },
                        ),
                    );
                }
                let readable_value = if m.has_readable_value && index < facts.assertions.len() {
                    facts.assertions[index].readable_value
                } else {
                    None
                };
                let value = match &m.value {
                    Some(v) => Some(v.deep_clone()),
                    None => None,
                };
                Ok(
                    ValidatedAssertionKind::ModbusRegister(
                        ValidatedModbusAssertion { device, register: m.register, value, readable_value },
                    ),
                )
            },
            None => Err(ScenarioError::InvalidAssertionKind),
        },
        AssertionTag::GuestExperienceField => Ok(ValidatedAssertionKind::GuestExperienceField(Condition::Unaffected)),
        AssertionTag::Ops => match &a.ops {
            Some(ops) => Ok(ValidatedAssertionKind::Ops(clone_map(ops))),
            None => Err(ScenarioError::InvalidAssertionKind),
        },
        AssertionTag::TargetCondition(t) => {
            let kind = match t {
                TargetConditionTag::EdgeSecondaryActive => ValidatedTargetConditionAssertion::EdgeSecondary {
                    condition: Condition::Active,
                },
                TargetConditionTag::MqttLocalAvailable => ValidatedTargetConditionAssertion::MqttLocal {
                    condition: Condition::Available,
                },
                TargetConditionTag::WanBackupActive => ValidatedTargetConditionAssertion::WanBackup {
                    condition: Condition::Active,
                },
                TargetConditionTag::LivingAreaDiscomfortIndex => {
                    let target = match &a.target {
                        Some(t) => t.clone(),
                        None => String::new(),
                    };
                    Identifier::parse("assertions[].target", target.as_str())?;
                    let between = if index < facts.assertions.len() {
                        facts.assertions[index].between
                    } else {
                        None
                    };
                    match between {
                        Some((min, max)) => ValidatedTargetConditionAssertion::LivingAreaDiscomfortIndex {
                            condition: Condition::Between { min, max },
                        },
                        None => {
                            return Err(ScenarioError::InvalidAssertionKind);
                        },
                    }
                },
                TargetConditionTag::UserOverrideFalse => ValidatedTargetConditionAssertion::UserOverride {
                    condition: Condition::False,
                },
                TargetConditionTag::GuestExperienceUnaffected => ValidatedTargetConditionAssertion::GuestExperience {
                    condition: Condition::Unaffected,
                },
            };
            Ok(ValidatedAssertionKind::TargetCondition(kind))
        },
        AssertionTag::Inline(t) => {
            let inline = match t {
                InlineTag::SceneConsistencyComplete => {
                    let scene_text = match scene {
                        Some(s) => s,
                        None => String::new(),
                    };
                    let scene = SceneId::parse("assertions[].assert.scene", scene_text.as_str())?;
                    model(lighting.assert_scene_exists(scene.as_str()))?;
                    ValidatedInlineAssertionKind::SceneConsistencyComplete(scene)
                },
                InlineTag::AccessControlDriftDetected => ValidatedInlineAssertionKind::AccessControlDriftDetected,
                InlineTag::CommissioningChecklistGenerated => ValidatedInlineAssertionKind::CommissioningChecklistGenerated,
                InlineTag::IntercomRelaySafeEvidence => ValidatedInlineAssertionKind::IntercomRelaySafeEvidence,
                InlineTag::NetworkControlPanelFaultsObserved => ValidatedInlineAssertionKind::NetworkControlPanelFaultsObserved,
                InlineTag::ComfortTimeseriesObserved => ValidatedInlineAssertionKind::ComfortTimeseriesObserved,
            };
            Ok(ValidatedAssertionKind::Inline(inline))
        },
    }
}

fn model<T>(r: Result<T, DeviceModelError>) -> (s: Result<T, ScenarioError>)
    ensures
        match r {
            Ok(x) => s == Ok::<T, ScenarioError>(x),
            Err(e) => s == Err::<T, ScenarioError>(ScenarioError::DeviceModel(e)),
        },
{
    match r {
        Ok(x) => Ok(x),
        Err(e) => Err(ScenarioError::DeviceModel(e)),
    }
}

/// Builds the Modbus, lighting, contact, edge and alert models, then
/// checks the scene targets and the alert sources.
fn check_models(def: &ScenarioDef) -> (r: Result<
    (ModbusModel, LightingModel, ContactModel, EdgeModel, OpsModel),
    ScenarioError,
>)
    ensures
        reports(r, model_problem(*def)),
        r matches Ok((m, l, c, e, o)) ==> {
            &&& models_view(m, l, c) == models_of(*def)
            &&& e@ == configured_edge(def.edge@.map_values(|v: Value| v@))->Some_0
            &&& o@.alerts == alert_views(*def)
        },
{
    let modbus = match ModbusModel::try_from_config(&def.modbus) {
        Ok(m) => m,
        Err(e) => {
            return Err(ScenarioError::DeviceModel(e));
        },
    };
    let lighting = match LightingModel::try_from_config(&def.lighting, &def.scenes) {
        Ok(m) => m,
        Err(e) => {
            return Err(ScenarioError::DeviceModel(e));
        },
    };
    let contacts = match ContactModel::try_from_config(&def.contacts) {
        Ok(m) => m,
        Err(e) => {
            return Err(ScenarioError::DeviceModel(e));
        },
    };
    let edge = match EdgeModel::try_from_config(&def.edge) {
        Ok(e) => e,
        Err(e) => {
            return Err(ScenarioError::Edge(e));
        },
    };
    let ops = OpsModel::from_config(&def.alerts);
    proof {
        assert(lighting@.scenes.dom() =~= def.scenes@.dom());
        assert(models_view(modbus, lighting, contacts) == models_of(*def));
    }
    match lighting.assert_scene_targets_exist() {
        Ok(()) => {},
        Err(e) => {
            return Err(ScenarioError::DeviceModel(e));
        },
    }
    let ghost alerts = alert_views(*def);
    let ghost check = source_checker(alerts, contacts@);
    let has = |c: &str| -> (b: bool)
        ensures
            b == contacts@.contains_key(c@),
        { contacts.has_contact(c) };
    match ops.validate_sources(has) {
        Ok(()) => {
            proof {
                assert forall|j: int| 0 <= j < alerts.len() implies #[trigger] check(j) is None by {
                    assert(source_contact(ops@.alerts[j].source) is Some);
                    let s = choose|s: &str|
                        s@ == source_contact(ops@.alerts[j].source)->Some_0 && has.ensures((s,), true);
                }
                lemma_first_issue_all_none(alerts.len(), check);
            }
        },
        Err(e) => {
            proof {
                let i = choose|i: int|
                    0 <= i < ops@.alerts.len() && e->UnknownAlertSource_0@ == ops@.alerts[i].source && (forall|j: int|
                        0 <= j < i ==> #[trigger] source_contact(ops@.alerts[j].source) is Some
                            && exists|s: &str|
                            s@ == source_contact(ops@.alerts[j].source)->Some_0 && has.ensures((s,), true))
                        && (source_contact(ops@.alerts[i].source) is None || exists|s: &str|
                        s@ == source_contact(ops@.alerts[i].source)->Some_0 && has.ensures((s,), false));
                assert forall|j: int| 0 <= j < i implies #[trigger] check(j) is None by {
                    assert(source_contact(ops@.alerts[j].source) is Some);
                    let s = choose|s: &str|
                        s@ == source_contact(ops@.alerts[j].source)->Some_0 && has.ensures((s,), true);
                }
                if source_contact(ops@.alerts[i].source) is Some {
                    let s = choose|s: &str|
                        s@ == source_contact(ops@.alerts[i].source)->Some_0 && has.ensures((s,), false);
                }
                assert(check(i) is Some);
                lemma_first_issue_at(i, alerts.len(), check);
            }
            return Err(ScenarioError::Ops(e));
        },
    }
    Ok((modbus, lighting, contacts, edge, ops))
}

fn check_contract_texts(c: &MqttConnectionContract) -> (r: Result<(), ScenarioError>)
    ensures
        reports(r, contract_text_problem(*c)),
{
    Identifier::parse("mqtt.contracts[].name", c.name.as_str())?;
    MqttTopicTemplate::parse("mqtt.contracts[].command_topic", c.command_topic.as_str())?;
    MqttTopicTemplate::parse("mqtt.contracts[].state_topic", c.state_topic.as_str())?;
    Ok(())
}

/// Checks the MQTT contracts as a whole, then each one's name and topics.
fn check_contracts(def: &ScenarioDef, facts: &ScenarioFacts) -> (r: Result<(), ScenarioError>)
    ensures
        reports(r, contracts_problem(*def, *facts)),
{
    match validate_mqtt_contracts(def.contracts.as_slice(), &facts.constraint_verdicts) {
        Ok(()) => {},
        Err(e) => {
            return Err(e);
        },
    }
    let ghost check = contract_text_checker(def.contracts@);
    let mut i: usize = 0;
    while i < def.contracts.len()
        invariant
            i <= def.contracts.len(),
            check == contract_text_checker(def.contracts@),
            mqtt_contracts_problem(contract_views(def.contracts@), verdict_table(facts.constraint_verdicts@)) is None,
            first_issue(i as nat, check) is None,
        decreases def.contracts.len() - i,
    {
        match check_contract_texts(&def.contracts[i]) {
            Ok(()) => {},
            Err(e) => {
                proof {
                    lemma_first_issue_stable((i + 1) as nat, def.contracts@.len(), check);
                }
                return Err(e);
            },
        }
        i = i + 1;
    }
    Ok(())
}

fn check_device(d: &DeviceDef) -> (r: Result<RuntimeDevice, ScenarioError>)
    ensures
        reports(r, device_def_problem(*d)),
        r matches Ok(x) ==> device_fits(x, *d),
{
    let id = DeviceId::parse("devices[].id", d.id.as_str())?;
    Identifier::parse("devices[].type", d.device_type.as_str())?;
    let protocol = match &d.protocol {
        Some(p) => Some(to_owned(Identifier::parse("devices[].protocol", p.as_str())?.as_str())),
        None => None,
    };
    Ok(RuntimeDevice { id: to_owned(id.as_str()), state: yaml_map_to_json(&d.state), protocol })
}

fn check_scene(id: &String, fixtures: &StrMap<i64>) -> (r: Result<(), ScenarioError>)
    ensures
        reports(r, scene_def_problem(id@, *fixtures)),
{
    SceneId::parse("scenes.<id>", id.as_str())?;
    let ghost check = fixture_key_checker(fixtures.key_seq());
    let n = fixtures.len();
    let mut j: usize = 0;
    while j < n
        invariant
            j <= n,
            n == fixtures.entry_seq().len(),
            valid_identifier(id@),
            check == fixture_key_checker(fixtures.key_seq()),
            first_issue(j as nat, check) is None,
        decreases n - j,
    {
        let key = fixtures.key_at(j);
        match FixtureId::parse("scenes[].fixtures.<id>", key.as_str()) {
            Ok(_) => {},
            Err(e) => {
                proof {
                    lemma_first_issue_stable((j + 1) as nat, fixtures.key_seq().len(), check);
                }
                return Err(e);
            },
        }
        j = j + 1;
    }
    Ok(())
}

/// Checks the device, scene, fixture and alert identifiers; gives the
/// devices as a run holds them.
fn check_ids(def: &ScenarioDef) -> (r: Result<Vec<RuntimeDevice>, ScenarioError>)
    ensures
        reports(r, ids_problem(*def)),
        r matches Ok(ds) ==> ds@.len() == def.devices@.len() && forall|i: int|
            0 <= i < ds@.len() ==> device_fits(#[trigger] ds@[i], def.devices@[i]),
{
    let ghost dcheck = device_checker(def.devices@);
    let mut devices: Vec<RuntimeDevice> = Vec::new();
    let mut i: usize = 0;
    while i < def.devices.len()
        invariant
            i <= def.devices.len(),
            devices@.len() == i,
            forall|j: int| 0 <= j < i ==> device_fits(#[trigger] devices@[j], def.devices@[j]),
            dcheck == device_checker(def.devices@),
            first_issue(i as nat, dcheck) is None,
        decreases def.devices.len() - i,
    {
        match check_device(&def.devices[i]) {
            Ok(d) => {
                devices.push(d);
            },
            Err(e) => {
                proof {
                    lemma_first_issue_stable((i + 1) as nat, def.devices@.len(), dcheck);
                }
                return Err(e);
            },
        }
        i = i + 1;
    }
    let ghost scheck = scene_checker(def.scenes.entry_seq());
    let n = def.scenes.len();
    let mut i: usize = 0;
    while i < n
        invariant
            i <= n,
            n == def.scenes.entry_seq().len(),
            first_issue(def.devices@.len(), dcheck) is None,
            dcheck == device_checker(def.devices@),
            scheck == scene_checker(def.scenes.entry_seq()),
            first_issue(i as nat, scheck) is None,
        decreases n - i,
    {
        match check_scene(def.scenes.key_at(i), def.scenes.value_at(i)) {
            Ok(()) => {},
            Err(e) => {
                proof {
                    lemma_first_issue_stable((i + 1) as nat, n as nat, scheck);
                }
                return Err(e);
            },
        }
        i = i + 1;
    }
    let ghost acheck = alert_id_checker(def.alerts@);
    let mut i: usize = 0;
    while i < def.alerts.len()
        invariant
            i <= def.alerts.len(),
            first_issue(def.devices@.len(), dcheck) is None,
            first_issue(def.scenes.entry_seq().len(), scheck) is None,
            dcheck == device_checker(def.devices@),
            scheck == scene_checker(def.scenes.entry_seq()),
            acheck == alert_id_checker(def.alerts@),
            first_issue(i as nat, acheck) is None,
        decreases def.alerts.len() - i,
    {
        if let Some(alert_id) = text_of(&def.alerts[i], "id") {
            match AlertId::parse("alerts[].id", alert_id.as_str()) {
                Ok(_) => {},
                Err(e) => {
                    proof {
                        lemma_first_issue_stable((i + 1) as nat, def.alerts@.len(), acheck);
                    }
                    return Err(e);
                },
            }
        }
        i = i + 1;
    }
    Ok(devices)
}

/// Checks a scenario's header, models, contracts and identifiers.
fn check_config(def: &ScenarioDef, facts: &ScenarioFacts) -> (r: Result<
    (ModbusModel, LightingModel, ContactModel, EdgeModel, OpsModel, Vec<RuntimeDevice>),
    ScenarioError,
>)
    ensures
        reports(r, config_problem(*def, *facts)),
        r matches Ok((m, l, c, e, o, ds)) ==> {
            &&& models_view(m, l, c) == models_of(*def)
            &&& e@ == configured_edge(def.edge@.map_values(|v: Value| v@))->Some_0
            &&& o@.alerts == alert_views(*def)
            &&& ds@.len() == def.devices@.len()
            &&& forall|i: int| 0 <= i < ds@.len() ==> device_fits(#[trigger] ds@[i], def.devices@[i])
        },
{
    match validate_scenario_header(def.version.as_str(), def.name.as_str(), def.assertions.len()) {
        Ok(()) => {},
        Err(e) => {
            return Err(e);
        },
    }
    let (modbus, lighting, contacts, edge, ops) = match check_models(def) {
        Ok(x) => x,
        Err(e) => {
            return Err(e);
        },
    };
    match check_contracts(def, facts) {
        Ok(()) => {},
        Err(e) => {
            return Err(e);
        },
    }
    let devices = match check_ids(def) {
        Ok(d) => d,
        Err(e) => {
            return Err(e);
        },
    };
    Ok((modbus, lighting, contacts, edge, ops, devices))
}

/// Checks each scheduled fault, its time first, and gives its event.
fn fault_events(def: &ScenarioDef, lighting: &LightingModel) -> (r: Result<Vec<ScheduledEvent>, ScenarioError>)
    requires
        times_readable(*def),
    ensures
        reports(r, first_issue(def.faults@.len(), fault_checker(def.faults@, lighting@.levels))),
        r matches Ok(v) ==> v@.len() == def.faults@.len() && forall|j: int|
            0 <= j < v@.len() ==> fault_event_ok(#[trigger] v@[j], def.faults@[j]),
{
    let ghost check = fault_checker(def.faults@, lighting@.levels);
    let mut events: Vec<ScheduledEvent> = Vec::new();
    let mut i: usize = 0;
    while i < def.faults.len()
        invariant
            i <= def.faults.len(),
            times_readable(*def),
            check == fault_checker(def.faults@, lighting@.levels),
            events@.len() == i,
            first_issue(i as nat, check) is None,
            forall|j: int| 0 <= j < i ==> fault_event_ok(#[trigger] events@[j], def.faults@[j]),
        decreases def.faults.len() - i,
    {
        let fault = &def.faults[i];
        let at = match &fault.at {
            Some(a) => match resolve_time_offset(a.as_str()) {
                Ok(t) => t,
                Err(e) => {
                    proof {
                        lemma_first_issue_stable((i + 1) as nat, def.faults@.len(), check);
                    }
                    return Err(e);
                },
            },
            None => 0,
        };
        let kind = match fault_kind(fault, lighting) {
            Ok(k) => k,
            Err(e) => {
                proof {
                    lemma_first_issue_stable((i + 1) as nat, def.faults@.len(), check);
                }
                return Err(e);
            },
        };
        events.push(ScheduledEvent { at, order: 0, kind: EventKind::GlobalFault(kind) });
        i = i + 1;
    }
    Ok(events)
}

/// Checks each step, its time first, and gives its event.
fn step_events(
    def: &ScenarioDef,
    facts: &ScenarioFacts,
    modbus: &ModbusModel,
    lighting: &LightingModel,
    contacts: &ContactModel,
    host_steps: &mut Vec<HostStep>,
) -> (r: Result<Vec<ScheduledEvent>, ScenarioError>)
    requires
        times_readable(*def),
    ensures
        reports(
            r,
            first_issue(
                def.steps@.len(),
                step_checker(def.steps@, facts.humidity_in_range@, models_view(*modbus, *lighting, *contacts)),
            ),
        ),
        r matches Ok(v) ==> v@.len() == def.steps@.len() && forall|j: int|
            0 <= j < v@.len() ==> step_event_ok(#[trigger] v@[j], def.steps@[j], j, final(host_steps)@),
{
    let ghost check = step_checker(def.steps@, facts.humidity_in_range@, models_view(*modbus, *lighting, *contacts));
    let mut events: Vec<ScheduledEvent> = Vec::new();
    let mut i: usize = 0;
    while i < def.steps.len()
        invariant
            i <= def.steps.len(),
            times_readable(*def),
            check == step_checker(def.steps@, facts.humidity_in_range@, models_view(*modbus, *lighting, *contacts)),
            events@.len() == i,
            first_issue(i as nat, check) is None,
            forall|j: int| 0 <= j < i ==> step_event_ok(#[trigger] events@[j], def.steps@[j], j, host_steps@),
        decreases def.steps.len() - i,
    {
        let step = &def.steps[i];
        let at = match resolve_time_offset(step.at.as_str()) {
            Ok(t) => t,
            Err(e) => {
                proof {
                    lemma_first_issue_stable((i + 1) as nat, def.steps@.len(), check);
                }
                return Err(e);
            },
        };
        let ghost host_steps_before = host_steps@;
        let kind = match step_kind(i, step, facts, modbus, lighting, contacts, host_steps) {
            Ok(k) => k,
            Err(e) => {
                proof {
                    lemma_first_issue_stable((i + 1) as nat, def.steps@.len(), check);
                }
                return Err(e);
            },
        };
        let ghost before = events@;
        events.push(ScheduledEvent { at, order: 0, kind: EventKind::Step(kind) });
        proof {
            assert forall|j: int| 0 <= j < i + 1 implies step_event_ok(
                #[trigger] events@[j],
                def.steps@[j],
                j,
                host_steps@,
            ) by {
                if j < i {
                    assert(events@[j] == before[j]);
                    assert(step_event_ok(before[j], def.steps@[j], j, host_steps_before));
                }
            }
        }
        i = i + 1;
    }
    Ok(events)
}

/// Checks each assertion, its time first, and gives its event.
#[verifier::rlimit(40)]
fn assertion_events(
    def: &ScenarioDef,
    facts: &ScenarioFacts,
    modbus: &ModbusModel,
    lighting: &LightingModel,
    contacts: &ContactModel,
) -> (r: Result<Vec<ScheduledEvent>, ScenarioError>)
    requires
        times_readable(*def),
    ensures
        reports(
            r,
            first_issue(
                def.assertions@.len(),
                assertion_checker(def.assertions@, facts.assertions@, models_view(*modbus, *lighting, *contacts)),
            ),
        ),
        r matches Ok(v) ==> v@.len() == def.assertions@.len() && forall|j: int|
            0 <= j < v@.len() ==> assertion_event_ok(#[trigger] v@[j], def.assertions@[j], j, facts.assertions@),
{
    let ghost check = assertion_checker(def.assertions@, facts.assertions@, models_view(*modbus, *lighting, *contacts));
    let mut events: Vec<ScheduledEvent> = Vec::new();
    let mut i: usize = 0;
    while i < def.assertions.len()
        invariant
            i <= def.assertions.len(),
            times_readable(*def),
            check == assertion_checker(def.assertions@, facts.assertions@, models_view(*modbus, *lighting, *contacts)),
            events@.len() == i,
            first_issue(i as nat, check) is None,
            forall|j: int| 0 <= j < i ==> assertion_event_ok(#[trigger] events@[j], def.assertions@[j], j, facts.assertions@),
        decreases def.assertions.len() - i,
    {
        let a = &def.assertions[i];
        let at = match resolve_time_offset(a.at.as_str()) {
            Ok(t) => t,
            Err(e) => {
                proof {
                    lemma_first_issue_stable((i + 1) as nat, def.assertions@.len(), check);
                }
                return Err(e);
            },
        };
        let kind = match assertion_kind(i, a, facts, modbus, lighting, contacts) {
            Ok(k) => k,
            Err(e) => {
                proof {
                    lemma_first_issue_stable((i + 1) as nat, def.assertions@.len(), check);
                }
                return Err(e);
            },
        };
        events.push(ScheduledEvent { at, order: 1, kind: EventKind::Assertion(kind) });
        i = i + 1;
    }
    Ok(events)
}

/// Faults, then steps, then assertions, each list event by event, are the
/// declared events.
proof fn lemma_declared(
    fs: Seq<ScheduledEvent>,
    ss: Seq<ScheduledEvent>,
    cs: Seq<ScheduledEvent>,
    def: ScenarioDef,
    facts: ScenarioFacts,
    hs: Seq<HostStep>,
)
    requires
        fs.len() == def.faults@.len(),
        ss.len() == def.steps@.len(),
        cs.len() == def.assertions@.len(),
        forall|j: int| 0 <= j < fs.len() ==> fault_event_ok(#[trigger] fs[j], def.faults@[j]),
        forall|j: int| 0 <= j < ss.len() ==> step_event_ok(#[trigger] ss[j], def.steps@[j], j, hs),
        forall|j: int| 0 <= j < cs.len() ==> assertion_event_ok(#[trigger] cs[j], def.assertions@[j], j, facts.assertions@),
    ensures
        declared_events(fs + ss + cs, def, facts, hs),
{
    let d = fs + ss + cs;
    let nf = fs.len() as int;
    let ns = ss.len() as int;
    assert forall|i: int| 0 <= i < nf implies fault_event_ok(#[trigger] d[i], def.faults@[i]) by {
        assert(d[i] == fs[i]);
    }
    assert forall|i: int| nf <= i < nf + ns implies step_event_ok(#[trigger] d[i], def.steps@[i - nf], i - nf, hs) by {
        assert(d[i] == ss[i - nf]);
    }
    assert forall|i: int| nf + ns <= i < d.len() implies assertion_event_ok(
        #[trigger] d[i],
        def.assertions@[i - nf - ns],
        i - nf - ns,
        facts.assertions@,
    ) by {
        assert(d[i] == cs[i - nf - ns]);
    }
}

/// Validates a scenario: its header (version, name, at least one
/// assertion), its Modbus, lighting, contact, edge and alert models, scene
/// targets and alert sources, its MQTT contracts, its devices, scene and
/// alert ids, then each fault, step and assertion in document order, and
/// last its failover windows. The first problem found is the error. The
/// events are the declared ones ordered by time, faults and steps before
/// assertions at the same time, equal times in declaration order.
#[verifier::rlimit(60)]
pub fn validate_scenario(def: &ScenarioDef, facts: &ScenarioFacts) -> (r: Result<PreparedScenario, ScenarioError>)
    requires
        times_readable(*def),
    ensures
        reports(r, scenario_problem(*def, *facts)),
        r matches Ok(p) ==> {
            &&& p.name@ == def.name@
            &&& p.broker_cloud_enabled == def.broker_cloud_enabled
            &&& p.devices@.len() == def.devices@.len()
            &&& forall|i: int| 0 <= i < p.devices@.len() ==> device_fits(#[trigger] p.devices@[i], def.devices@[i])
            &&& models_view(p.modbus, p.lighting, p.contacts) == models_of(*def)
            &&& p.edge@ == configured_edge(def.edge@.map_values(|v: Value| v@))->Some_0
            &&& p.ops@.alerts == alert_views(*def)
            &&& sections_read(p.domain, def.edge@, def.wan@, def.inputs@, def.commissioning@)
            &&& exists|d: Seq<ScheduledEvent>| declared_events(d, *def, *facts, p.host_steps@) && p.events@ == in_time_order(d)
            &&& ordered(p.events@)
        },
{
    proof {
        reveal(scenario_problem);
    }
    let (modbus, lighting, contacts, edge, ops, devices) = match check_config(def, facts) {
        Ok(x) => x,
        Err(e) => {
            return Err(e);
        },
    };
    let mut events = match fault_events(def, &lighting) {
        Ok(v) => v,
        Err(e) => {
            return Err(e);
        },
    };
    let mut host_steps: Vec<HostStep> = Vec::new();
    let mut steps = match step_events(def, facts, &modbus, &lighting, &contacts, &mut host_steps) {
        Ok(v) => v,
        Err(e) => {
            return Err(e);
        },
    };
    let mut checks = match assertion_events(def, facts, &modbus, &lighting, &contacts) {
        Ok(v) => v,
        Err(e) => {
            return Err(e);
        },
    };
    let ghost fs = events@;
    let ghost ss = steps@;
    let ghost cs = checks@;
    events.append(&mut steps);
    events.append(&mut checks);
    let ghost declared = events@;
    proof {
        assert(declared =~= fs + ss + cs);
        lemma_declared(fs, ss, cs, *def, *facts, host_steps@);
    }
    let events = schedule(events);
    proof {
        law_schedule_orders_stably(declared, declared[0]);
    }
    let domain = match DomainRuntimeConfig::try_from_sections(&def.edge, &def.wan, &def.inputs, &def.commissioning) {
        Ok(d) => d,
        Err(e) => {
            return Err(e);
        },
    };
    Ok(
        PreparedScenario {
            name: def.name.clone(),
            devices,
            broker_cloud_enabled: def.broker_cloud_enabled,
            edge,
            modbus,
            lighting,
            contacts,
            ops,
            domain,
            events,
            host_steps,
        },
    )
}

} // verus!

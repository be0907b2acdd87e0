//! Adapter contracts: what an adapter declares about the devices, MQTT
//! contracts, Modbus registers, BMS alerts, edge commands and protocol
//! profiles it serves, and the acceptance criteria it is held to.
//! Validation reports the first problem, section by section, in document
//! order.

use vstd::prelude::*;

use crate::adapter::{
    acceptance_problem, first_problem, lemma_first_problem_stable, texts, validate_acceptance_mappings,
    AdapterAcceptance,
};
use crate::mqtt_contract::{
    contract_views, mqtt_contracts_problem, problem_view, validate_mqtt_contracts, verdict_table,
    ContractProblem, MqttConnectionContract,
};
use crate::scenario::{opt_text, ScenarioError};
use crate::strmap::StrMap;
use crate::text::{chars_of, concat2, decimal, is_blank, push_str, seq_is_blank, str_eq, to_owned, u64_to_string};
use crate::value::{Value, ValueView};

verus! {

pub struct AdapterMetadata {
    pub name: String,
    pub domain_pack: Option<String>,
    pub owner: Option<String>,
}

pub struct AdapterSite {
    pub id: Option<String>,
    pub rooms: Vec<StrMap<Value>>,
}

pub struct AdapterDevice {
    pub id: String,
    pub device_type: String,
    pub protocol: String,
}

pub struct AdapterMqtt {
    pub contracts: Vec<MqttConnectionContract>,
}

/// A Modbus register an adapter exposes (its scale factor, a float, is
/// left to the caller).
pub struct AdapterModbusRegister {
    pub address: u32,
    pub name: String,
    pub register_type: String,
    pub access: String,
    pub unit: Option<String>,
}

pub struct AdapterModbusDevice {
    pub id: String,
    pub unit_id: Option<u8>,
    pub registers: Vec<AdapterModbusRegister>,
}

pub struct AdapterModbus {
    pub devices: Vec<AdapterModbusDevice>,
}

pub struct AdapterHmacMetadata {
    pub header: String,
    pub algorithm: String,
    pub secret_ref: String,
}

pub struct AdapterBmsAlert {
    pub id: String,
    pub source: String,
    pub severity: String,
    pub schema_version: Option<String>,
    pub content_type: Option<String>,
    pub severity_enum: Vec<String>,
    pub hmac: Option<AdapterHmacMetadata>,
    pub replay_window_seconds: Option<u64>,
    pub channels: Vec<String>,
    pub ticket_lifecycle: Vec<String>,
}

pub struct AdapterBms {
    pub alerts: Vec<AdapterBmsAlert>,
}

pub struct AdapterEdgeCommand {
    pub name: String,
    pub source: String,
    pub target: String,
    pub expected_state: String,
}

pub struct AdapterEdge {
    pub commands: Vec<AdapterEdgeCommand>,
}

pub struct MatterProfile {
    pub name: String,
    pub gateway: String,
    pub device_id: String,
    pub endpoint_id: u32,
    pub cluster: String,
    pub attribute: String,
    pub command: String,
    pub expected_state: StrMap<Value>,
    pub acceptance: Vec<String>,
}

pub struct BacnetProfile {
    pub name: String,
    pub device_id: String,
    pub object_type: String,
    pub object_instance: u32,
    pub property: String,
    pub expected_value: Value,
    pub event_class: Option<String>,
    pub acceptance: Vec<String>,
}

pub struct KnxProfile {
    pub name: String,
    pub gateway: String,
    pub group_address: String,
    pub datapoint_type: String,
    pub direction: String,
    pub expected_value: Value,
    pub function: String,
    pub room: Option<String>,
    pub acceptance: Vec<String>,
}

pub struct OpcUaProfile {
    pub name: String,
    pub endpoint: String,
    pub namespace: String,
    pub node_id: String,
    pub browse_name: String,
    pub attribute: String,
    pub expected_value: Value,
    pub event_type: Option<String>,
    pub acceptance: Vec<String>,
}

pub struct AdapterProtocolProfiles {
    pub matter: Vec<MatterProfile>,
    pub bacnet: Vec<BacnetProfile>,
    pub knx: Vec<KnxProfile>,
    pub opcua: Vec<OpcUaProfile>,
}

impl AdapterProtocolProfiles {
    /// Whether any protocol profile is declared.
    pub fn has_profiles(&self) -> (b: bool)
        ensures
            b == (self.matter.len() > 0 || self.bacnet.len() > 0 || self.knx.len() > 0
                || self.opcua.len() > 0),
    {
        self.matter.len() > 0 || self.bacnet.len() > 0 || self.knx.len() > 0 || self.opcua.len()
            > 0
    }
}

/// An adapter contract.
pub struct AdapterContract {
    pub version: String,
    pub adapter: AdapterMetadata,
    pub site: AdapterSite,
    pub devices: Vec<AdapterDevice>,
    pub mqtt: AdapterMqtt,
    pub modbus: AdapterModbus,
    pub bms: AdapterBms,
    pub edge: AdapterEdge,
    pub protocol_profiles: AdapterProtocolProfiles,
    pub auth: StrMap<Value>,
    pub acceptance: AdapterAcceptance,
}

// ---------------------------------------------------------------------------
// What the checks state
// ---------------------------------------------------------------------------

/// `<field> must not be empty` for blank text.
pub open spec fn required_text(field: Seq<char>, value: Seq<char>) -> Option<Seq<char>> {
    if is_blank(value) {
        Some(field + " must not be empty"@)
    } else {
        None
    }
}

/// The first of two outcomes that is a problem.
pub open spec fn either<T>(a: Option<T>, b: Option<T>) -> Option<T> {
    match a {
        Some(x) => Some(x),
        None => b,
    }
}

pub open spec fn supported_access(a: Seq<char>) -> bool {
    a == "read"@ || a == "write"@ || a == "read_write"@
}

pub open spec fn device_check(ds: Seq<AdapterDevice>, i: int) -> Option<Seq<char>> {
    either(
        required_text("devices[].id"@, ds[i].id@),
        either(
            required_text("devices[].type"@, ds[i].device_type@),
            required_text("devices[].protocol"@, ds[i].protocol@),
        ),
    )
}

pub open spec fn register_check(rs: Seq<AdapterModbusRegister>, k: int) -> Option<Seq<char>> {
    let r = rs[k];
    either(
        required_text("modbus.registers[].name"@, r.name@),
        either(
            required_text("modbus.registers[].type"@, r.register_type@),
            if !supported_access(r.access@) {
                Some(
                    "modbus register "@ + decimal(r.address as nat) + " uses unsupported access "@
                        + r.access@ + "; expected read, write, or read_write"@,
                )
            } else {
                None
            },
        ),
    )
}

pub open spec fn modbus_device_check(ds: Seq<AdapterModbusDevice>, i: int) -> Option<Seq<char>> {
    let d = ds[i];
    either(
        required_text("modbus.devices[].id"@, d.id@),
        if d.registers.len() == 0 {
            Some("modbus device "@ + d.id@ + " must declare at least one register"@)
        } else {
            first_problem(d.registers.len() as nat, register_checker(d.registers@))
        },
    )
}

pub open spec fn alert_label(a: AdapterBmsAlert) -> Seq<char> {
    "BMS alert "@ + a.id@
}

pub open spec fn hmac_check(a: AdapterBmsAlert) -> Option<Seq<char>> {
    match a.hmac {
        Some(h) => either(
            required_text("bms.alerts[].hmac.header"@, h.header@),
            either(
                required_text("bms.alerts[].hmac.algorithm"@, h.algorithm@),
                either(
                    required_text("bms.alerts[].hmac.secret_ref"@, h.secret_ref@),
                    if h.algorithm@ != "hmac-sha256"@ {
                        Some(
                            alert_label(a) + " uses unsupported HMAC algorithm "@ + h.algorithm@
                                + "; expected hmac-sha256"@,
                        )
                    } else {
                        None
                    },
                ),
            ),
        ),
        None => None,
    }
}

pub open spec fn alert_check(alerts: Seq<AdapterBmsAlert>, i: int) -> Option<Seq<char>> {
    let a = alerts[i];
    either(
        required_text("bms.alerts[].id"@, a.id@),
        either(
            required_text("bms.alerts[].source"@, a.source@),
            either(
                required_text("bms.alerts[].severity"@, a.severity@),
                either(
                    match a.schema_version {
                        Some(v) => required_text("bms.alerts[].schema_version"@, v@),
                        None => None,
                    },
                    either(
                        match a.content_type {
                            Some(t) => if t@ != "application/json"@ {
                                Some(
                                    alert_label(a) + " uses unsupported content_type "@ + t@
                                        + "; expected application/json"@,
                                )
                            } else {
                                None
                            },
                            None => None,
                        },
                        either(
                            if a.severity_enum.len() > 0 && !texts(a.severity_enum@).contains(
                                a.severity@,
                            ) {
                                Some(
                                    alert_label(a) + " severity "@ + a.severity@
                                        + " is not declared in severity_enum"@,
                                )
                            } else {
                                None
                            },
                            either(
                                hmac_check(a),
                                if a.replay_window_seconds == Some(0u64) {
                                    Some(
                                        alert_label(a)
                                            + " replay_window_seconds must be greater than zero"@,
                                    )
                                } else if a.channels.len() == 0 {
                                    Some(
                                        alert_label(a)
                                            + " must declare at least one notification channel"@,
                                    )
                                } else {
                                    None
                                },
                            ),
                        ),
                    ),
                ),
            ),
        ),
    )
}

pub open spec fn command_check(cs: Seq<AdapterEdgeCommand>, i: int) -> Option<Seq<char>> {
    let c = cs[i];
    either(
        required_text("edge.commands[].name"@, c.name@),
        either(
            required_text("edge.commands[].source"@, c.source@),
            either(
                required_text("edge.commands[].target"@, c.target@),
                required_text("edge.commands[].expected_state"@, c.expected_state@),
            ),
        ),
    )
}

pub open spec fn matter_check(ps: Seq<MatterProfile>, i: int) -> Option<Seq<char>> {
    let p = ps[i];
    either(
        required_text("protocol_profiles.matter[].name"@, p.name@),
        either(
            required_text("protocol_profiles.matter[].gateway"@, p.gateway@),
            either(
                required_text("protocol_profiles.matter[].device_id"@, p.device_id@),
                either(
                    required_text("protocol_profiles.matter[].cluster"@, p.cluster@),
                    either(
                        required_text("protocol_profiles.matter[].attribute"@, p.attribute@),
                        either(
                            required_text("protocol_profiles.matter[].command"@, p.command@),
                            if p.expected_state@.len() == 0 {
                                Some("Matter profile "@ + p.name@ + " must declare expected_state"@)
                            } else {
                                None
                            },
                        ),
                    ),
                ),
            ),
        ),
    )
}

pub open spec fn bacnet_check(ps: Seq<BacnetProfile>, i: int) -> Option<Seq<char>> {
    let p = ps[i];
    either(
        required_text("protocol_profiles.bacnet[].name"@, p.name@),
        either(
            required_text("protocol_profiles.bacnet[].device_id"@, p.device_id@),
            either(
                required_text("protocol_profiles.bacnet[].object_type"@, p.object_type@),
                either(
                    required_text("protocol_profiles.bacnet[].property"@, p.property@),
                    if p.expected_value@ == ValueView::Null {
                        Some("BACnet profile "@ + p.name@ + " must declare expected_value"@)
                    } else {
                        None
                    },
                ),
            ),
        ),
    )
}

pub open spec fn knx_check(ps: Seq<KnxProfile>, i: int) -> Option<Seq<char>> {
    let p = ps[i];
    either(
        required_text("protocol_profiles.knx[].name"@, p.name@),
        either(
            required_text("protocol_profiles.knx[].gateway"@, p.gateway@),
            either(
                required_text("protocol_profiles.knx[].group_address"@, p.group_address@),
                either(
                    required_text("protocol_profiles.knx[].datapoint_type"@, p.datapoint_type@),
                    either(
                        if !supported_access(p.direction@) {
                            Some(
                                "KNX profile "@ + p.name@ + " uses unsupported direction "@
                                    + p.direction@ + "; expected read, write, or read_write"@,
                            )
                        } else {
                            None
                        },
                        either(
                            required_text("protocol_profiles.knx[].function"@, p.function@),
                            if p.expected_value@ == ValueView::Null {
                                Some("KNX profile "@ + p.name@ + " must declare expected_value"@)
                            } else {
                                None
                            },
                        ),
                    ),
                ),
            ),
        ),
    )
}

pub open spec fn opcua_check(ps: Seq<OpcUaProfile>, i: int) -> Option<Seq<char>> {
    let p = ps[i];
    either(
        required_text("protocol_profiles.opcua[].name"@, p.name@),
        either(
            required_text("protocol_profiles.opcua[].endpoint"@, p.endpoint@),
            either(
                required_text("protocol_profiles.opcua[].namespace"@, p.namespace@),
                either(
                    required_text("protocol_profiles.opcua[].node_id"@, p.node_id@),
                    either(
                        required_text("protocol_profiles.opcua[].browse_name"@, p.browse_name@),
                        either(
                            required_text("protocol_profiles.opcua[].attribute"@, p.attribute@),
                            if p.expected_value@ == ValueView::Null {
                                Some("OPC UA profile "@ + p.name@ + " must declare expected_value"@)
                            } else {
                                None
                            },
                        ),
                    ),
                ),
            ),
        ),
    )
}

pub open spec fn register_checker(items: Seq<AdapterModbusRegister>) -> spec_fn(int) -> Option<Seq<char>> {
    |k: int| register_check(items, k)
}

pub open spec fn device_checker(items: Seq<AdapterDevice>) -> spec_fn(int) -> Option<Seq<char>> {
    |i: int| device_check(items, i)
}

pub open spec fn modbus_device_checker(items: Seq<AdapterModbusDevice>) -> spec_fn(int) -> Option<Seq<char>> {
    |i: int| modbus_device_check(items, i)
}

pub open spec fn alert_checker(items: Seq<AdapterBmsAlert>) -> spec_fn(int) -> Option<Seq<char>> {
    |i: int| alert_check(items, i)
}

pub open spec fn command_checker(items: Seq<AdapterEdgeCommand>) -> spec_fn(int) -> Option<Seq<char>> {
    |i: int| command_check(items, i)
}

pub open spec fn matter_checker(items: Seq<MatterProfile>) -> spec_fn(int) -> Option<Seq<char>> {
    |i: int| matter_check(items, i)
}

pub open spec fn bacnet_checker(items: Seq<BacnetProfile>) -> spec_fn(int) -> Option<Seq<char>> {
    |i: int| bacnet_check(items, i)
}

pub open spec fn knx_checker(items: Seq<KnxProfile>) -> spec_fn(int) -> Option<Seq<char>> {
    |i: int| knx_check(items, i)
}

pub open spec fn opcua_checker(items: Seq<OpcUaProfile>) -> spec_fn(int) -> Option<Seq<char>> {
    |i: int| opcua_check(items, i)
}

/// The first problem among the protocol profiles: Matter, then BACnet,
/// KNX and OPC UA.
pub open spec fn profiles_problem(p: AdapterProtocolProfiles) -> Option<Seq<char>> {
    either(
        first_problem(p.matter.len() as nat, matter_checker(p.matter@)),
        either(
            first_problem(p.bacnet.len() as nat, bacnet_checker(p.bacnet@)),
            either(
                first_problem(p.knx.len() as nat, knx_checker(p.knx@)),
                first_problem(p.opcua.len() as nat, opcua_checker(p.opcua@)),
            ),
        ),
    )
}

pub open spec fn has_surface(c: AdapterContract) -> bool {
    c.devices.len() > 0 || c.mqtt.contracts.len() > 0 || c.modbus.devices.len() > 0
        || c.bms.alerts.len() > 0 || c.edge.commands.len() > 0 || c.protocol_profiles.matter.len()
        > 0 || c.protocol_profiles.bacnet.len() > 0 || c.protocol_profiles.knx.len() > 0
        || c.protocol_profiles.opcua.len() > 0
}

pub open spec fn lift(o: Option<Seq<char>>) -> Option<ContractProblem> {
    match o {
        Some(m) => Some(ContractProblem::Contract(m)),
        None => None,
    }
}

/// The first problem of an adapter contract. `vt[i][j]` is the verdict on
/// the constraint of field `j` of MQTT contract `i`.
pub open spec fn adapter_contract_problem(c: AdapterContract, vt: Seq<Seq<Option<Seq<char>>>>) -> Option<
    ContractProblem,
> {
    either(
        lift(required_text("version"@, c.version@)),
        either(
            lift(required_text("adapter.name"@, c.adapter.name@)),
            either(
                lift(
                    if !has_surface(c) {
                        Some(
                            "at least one device, MQTT contract, Modbus device, BMS alert, edge command, or protocol profile is required"@,
                        )
                    } else {
                        None
                    },
                ),
                either(
                    lift(first_problem(c.devices.len() as nat, device_checker(c.devices@))),
                    either(
                        mqtt_contracts_problem(contract_views(c.mqtt.contracts@), vt),
                        either(
                            lift(
                                first_problem(
                                    c.modbus.devices.len() as nat,
                                    modbus_device_checker(c.modbus.devices@),
                                ),
                            ),
                            either(
                                lift(
                                    first_problem(
                                        c.bms.alerts.len() as nat,
                                        alert_checker(c.bms.alerts@),
                                    ),
                                ),
                                either(
                                    lift(
                                        first_problem(
                                            c.edge.commands.len() as nat,
                                            command_checker(c.edge.commands@),
                                        ),
                                    ),
                                    either(
                                        lift(profiles_problem(c.protocol_profiles)),
                                        lift(acceptance_section_problem(c.acceptance)),
                                    ),
                                ),
                            ),
                        ),
                    ),
                ),
            ),
        ),
    )
}

pub open spec fn acceptance_section_problem(a: AdapterAcceptance) -> Option<Seq<char>> {
    if a.criteria.len() == 0 {
        Some("acceptance.criteria must declare at least one pass/fail criterion"@)
    } else if a.report_formats.len() == 0 {
        Some("acceptance.report_formats must declare at least one report format"@)
    } else {
        acceptance_problem(a@)
    }
}

// ---------------------------------------------------------------------------
// The checks
// ---------------------------------------------------------------------------

fn required(field: &str, value: &str) -> (r: Option<String>)
    ensures
        opt_text(r) == required_text(field@, value@),
{
    let chars = chars_of(value);
    if seq_is_blank(&chars) {
        Some(concat2(field, " must not be empty"))
    } else {
        None
    }
}

fn is_supported_access(a: &str) -> (b: bool)
    ensures
        b == supported_access(a@),
{
    str_eq(a, "read") || str_eq(a, "write") || str_eq(a, "read_write")
}

fn device_problem(ds: &Vec<AdapterDevice>, i: usize) -> (r: Option<String>)
    requires
        i < ds.len(),
    ensures
        opt_text(r) == device_check(ds@, i as int),
{
    let d = &ds[i];
    let r = required("devices[].id", d.id.as_str());
    if r.is_some() {
        return r;
    }
    let r = required("devices[].type", d.device_type.as_str());
    if r.is_some() {
        return r;
    }
    required("devices[].protocol", d.protocol.as_str())
}

fn register_problem(rs: &Vec<AdapterModbusRegister>, k: usize) -> (r: Option<String>)
    requires
        k < rs.len(),
    ensures
        opt_text(r) == register_check(rs@, k as int),
{
    let reg = &rs[k];
    let r = required("modbus.registers[].name", reg.name.as_str());
    if r.is_some() {
        return r;
    }
    let r = required("modbus.registers[].type", reg.register_type.as_str());
    if r.is_some() {
        return r;
    }
    if !is_supported_access(reg.access.as_str()) {
        let mut m = to_owned("modbus register ");
        let n = u64_to_string(reg.address as u64);
        push_str(&mut m, n.as_str());
        push_str(&mut m, " uses unsupported access ");
        push_str(&mut m, reg.access.as_str());
        push_str(&mut m, "; expected read, write, or read_write");
        return Some(m);
    }
    None
}

#[verifier::loop_isolation(false)]
fn modbus_device_problem(ds: &Vec<AdapterModbusDevice>, i: usize) -> (r: Option<String>)
    requires
        i < ds.len(),
    ensures
        opt_text(r) == modbus_device_check(ds@, i as int),
{
    let d = &ds[i];
    let r = required("modbus.devices[].id", d.id.as_str());
    if r.is_some() {
        return r;
    }
    if d.registers.len() == 0 {
        let mut m = concat2("modbus device ", d.id.as_str());
        push_str(&mut m, " must declare at least one register");
        return Some(m);
    }
    let ghost check = register_checker(d.registers@);
    let mut k: usize = 0;
    while k < d.registers.len()
        invariant
            k <= d.registers.len(),
            check == (register_checker(d.registers@)),
            first_problem(k as nat, check) is None,
        decreases d.registers.len() - k,
    {
        let r = register_problem(&d.registers, k);
        if r.is_some() {
            proof {
                lemma_first_problem_stable((k + 1) as nat, d.registers.len() as nat, check);
            }
            return r;
        }
        k = k + 1;
    }
    None
}

fn hmac_problem(a: &AdapterBmsAlert) -> (r: Option<String>)
    ensures
        opt_text(r) == hmac_check(*a),
{
    match &a.hmac {
        Some(h) => {
            let r = required("bms.alerts[].hmac.header", h.header.as_str());
            if r.is_some() {
                return r;
            }
            let r = required("bms.alerts[].hmac.algorithm", h.algorithm.as_str());
            if r.is_some() {
                return r;
            }
            let r = required("bms.alerts[].hmac.secret_ref", h.secret_ref.as_str());
            if r.is_some() {
                return r;
            }
            if !str_eq(h.algorithm.as_str(), "hmac-sha256") {
                let mut m = concat2("BMS alert ", a.id.as_str());
                push_str(&mut m, " uses unsupported HMAC algorithm ");
                push_str(&mut m, h.algorithm.as_str());
                push_str(&mut m, "; expected hmac-sha256");
                return Some(m);
            }
            None
        },
        None => None,
    }
}

fn alert_problem(alerts: &Vec<AdapterBmsAlert>, i: usize) -> (r: Option<String>)
    requires
        i < alerts.len(),
    ensures
        opt_text(r) == alert_check(alerts@, i as int),
{
    let a = &alerts[i];
    let r = required("bms.alerts[].id", a.id.as_str());
    if r.is_some() {
        return r;
    }
    let r = required("bms.alerts[].source", a.source.as_str());
    if r.is_some() {
        return r;
    }
    let r = required("bms.alerts[].severity", a.severity.as_str());
    if r.is_some() {
        return r;
    }
    match &a.schema_version {
        Some(v) => {
            let r = required("bms.alerts[].schema_version", v.as_str());
            if r.is_some() {
                return r;
            }
        },
        None => {},
    }
    match &a.content_type {
        Some(t) => {
            if !str_eq(t.as_str(), "application/json") {
                let mut m = concat2("BMS alert ", a.id.as_str());
                push_str(&mut m, " uses unsupported content_type ");
                push_str(&mut m, t.as_str());
                push_str(&mut m, "; expected application/json");
                return Some(m);
            }
        },
        None => {},
    }
    if a.severity_enum.len() > 0 && !crate::adapter::appears_before(
        &a.severity_enum,
        a.severity_enum.len(),
        a.severity.as_str(),
    ) {
        proof {
            if texts(a.severity_enum@).contains(a.severity@) {
                let j = choose|j: int|
                    0 <= j < texts(a.severity_enum@).len() && texts(a.severity_enum@)[j]
                        == a.severity@;
                assert(a.severity_enum@[j]@ == a.severity@);
            }
        }
        let mut m = concat2("BMS alert ", a.id.as_str());
        push_str(&mut m, " severity ");
        push_str(&mut m, a.severity.as_str());
        push_str(&mut m, " is not declared in severity_enum");
        return Some(m);
    }
    proof {
        if a.severity_enum.len() > 0 {
            let j = choose|j: int| 0 <= j < a.severity_enum.len() && a.severity_enum@[j]@ == a.severity@;
            assert(texts(a.severity_enum@)[j] == a.severity@);
        }
    }
    let r = hmac_problem(a);
    if r.is_some() {
        return r;
    }
    if a.replay_window_seconds == Some(0u64) {
        let mut m = concat2("BMS alert ", a.id.as_str());
        push_str(&mut m, " replay_window_seconds must be greater than zero");
        return Some(m);
    }
    if a.channels.len() == 0 {
        let mut m = concat2("BMS alert ", a.id.as_str());
        push_str(&mut m, " must declare at least one notification channel");
        return Some(m);
    }
    None
}

fn command_problem(cs: &Vec<AdapterEdgeCommand>, i: usize) -> (r: Option<String>)
    requires
        i < cs.len(),
    ensures
        opt_text(r) == command_check(cs@, i as int),
{
    let c = &cs[i];
    let r = required("edge.commands[].name", c.name.as_str());
    if r.is_some() {
        return r;
    }
    let r = required("edge.commands[].source", c.source.as_str());
    if r.is_some() {
        return r;
    }
    let r = required("edge.commands[].target", c.target.as_str());
    if r.is_some() {
        return r;
    }
    required("edge.commands[].expected_state", c.expected_state.as_str())
}

fn matter_problem(ps: &Vec<MatterProfile>, i: usize) -> (r: Option<String>)
    requires
        i < ps.len(),
    ensures
        opt_text(r) == matter_check(ps@, i as int),
{
    let p = &ps[i];
    let r = required("protocol_profiles.matter[].name", p.name.as_str());
    if r.is_some() {
        return r;
    }
    let r = required("protocol_profiles.matter[].gateway", p.gateway.as_str());
    if r.is_some() {
        return r;
    }
    let r = required("protocol_profiles.matter[].device_id", p.device_id.as_str());
    if r.is_some() {
        return r;
    }
    let r = required("protocol_profiles.matter[].cluster", p.cluster.as_str());
    if r.is_some() {
        return r;
    }
    let r = required("protocol_profiles.matter[].attribute", p.attribute.as_str());
    if r.is_some() {
        return r;
    }
    let r = required("protocol_profiles.matter[].command", p.command.as_str());
    if r.is_some() {
        return r;
    }
    if p.expected_state.is_empty() {
        let mut m = concat2("Matter profile ", p.name.as_str());
        push_str(&mut m, " must declare expected_state");
        return Some(m);
    }
    None
}

fn bacnet_problem(ps: &Vec<BacnetProfile>, i: usize) -> (r: Option<String>)
    requires
        i < ps.len(),
    ensures
        opt_text(r) == bacnet_check(ps@, i as int),
{
    let p = &ps[i];
    let r = required("protocol_profiles.bacnet[].name", p.name.as_str());
    if r.is_some() {
        return r;
    }
    let r = required("protocol_profiles.bacnet[].device_id", p.device_id.as_str());
    if r.is_some() {
        return r;
    }
    let r = required("protocol_profiles.bacnet[].object_type", p.object_type.as_str());
    if r.is_some() {
        return r;
    }
    let r = required("protocol_profiles.bacnet[].property", p.property.as_str());
    if r.is_some() {
        return r;
    }
    if p.expected_value.is_null() {
        let mut m = concat2("BACnet profile ", p.name.as_str());
        push_str(&mut m, " must declare expected_value");
        return Some(m);
    }
    None
}

fn knx_problem(ps: &Vec<KnxProfile>, i: usize) -> (r: Option<String>)
    requires
        i < ps.len(),
    ensures
        opt_text(r) == knx_check(ps@, i as int),
{
    let p = &ps[i];
    let r = required("protocol_profiles.knx[].name", p.name.as_str());
    if r.is_some() {
        return r;
    }
    let r = required("protocol_profiles.knx[].gateway", p.gateway.as_str());
    if r.is_some() {
        return r;
    }
    let r = required("protocol_profiles.knx[].group_address", p.group_address.as_str());
    if r.is_some() {
        return r;
    }
    let r = required("protocol_profiles.knx[].datapoint_type", p.datapoint_type.as_str());
    if r.is_some() {
        return r;
    }
    if !is_supported_access(p.direction.as_str()) {
        let mut m = concat2("KNX profile ", p.name.as_str());
        push_str(&mut m, " uses unsupported direction ");
        push_str(&mut m, p.direction.as_str());
        push_str(&mut m, "; expected read, write, or read_write");
        return Some(m);
    }
    let r = required("protocol_profiles.knx[].function", p.function.as_str());
    if r.is_some() {
        return r;
    }
    if p.expected_value.is_null() {
        let mut m = concat2("KNX profile ", p.name.as_str());
        push_str(&mut m, " must declare expected_value");
        return Some(m);
    }
    None
}

fn opcua_problem(ps: &Vec<OpcUaProfile>, i: usize) -> (r: Option<String>)
    requires
        i < ps.len(),
    ensures
        opt_text(r) == opcua_check(ps@, i as int),
{
    let p = &ps[i];
    let r = required("protocol_profiles.opcua[].name", p.name.as_str());
    if r.is_some() {
        return r;
    }
    let r = required("protocol_profiles.opcua[].endpoint", p.endpoint.as_str());
    if r.is_some() {
        return r;
    }
    let r = required("protocol_profiles.opcua[].namespace", p.namespace.as_str());
    if r.is_some() {
        return r;
    }
    let r = required("protocol_profiles.opcua[].node_id", p.node_id.as_str());
    if r.is_some() {
        return r;
    }
    let r = required("protocol_profiles.opcua[].browse_name", p.browse_name.as_str());
    if r.is_some() {
        return r;
    }
    let r = required("protocol_profiles.opcua[].attribute", p.attribute.as_str());
    if r.is_some() {
        return r;
    }
    if p.expected_value.is_null() {
        let mut m = concat2("OPC UA profile ", p.name.as_str());
        push_str(&mut m, " must declare expected_value");
        return Some(m);
    }
    None
}

fn first_device_problem(items: &Vec<AdapterDevice>) -> (r: Option<String>)
    ensures
        opt_text(r) == first_problem(items.len() as nat, device_checker(items@)),
{
    let ghost check = device_checker(items@);
    let mut i: usize = 0;
    while i < items.len()
        invariant
            i <= items.len(),
            check == device_checker(items@),
            first_problem(i as nat, check) is None,
        decreases items.len() - i,
    {
        let r = device_problem(items, i);
        if r.is_some() {
            proof {
                lemma_first_problem_stable((i + 1) as nat, items.len() as nat, check);
            }
            return r;
        }
        i = i + 1;
    }
    None
}

fn first_modbus_device_problem(items: &Vec<AdapterModbusDevice>) -> (r: Option<String>)
    ensures
        opt_text(r) == first_problem(items.len() as nat, modbus_device_checker(items@)),
{
    let ghost check = modbus_device_checker(items@);
    let mut i: usize = 0;
    while i < items.len()
        invariant
            i <= items.len(),
            check == modbus_device_checker(items@),
            first_problem(i as nat, check) is None,
        decreases items.len() - i,
    {
        let r = modbus_device_problem(items, i);
        if r.is_some() {
            proof {
                lemma_first_problem_stable((i + 1) as nat, items.len() as nat, check);
            }
            return r;
        }
        i = i + 1;
    }
    None
}

fn first_alert_problem(items: &Vec<AdapterBmsAlert>) -> (r: Option<String>)
    ensures
        opt_text(r) == first_problem(items.len() as nat, alert_checker(items@)),
{
    let ghost check = alert_checker(items@);
    let mut i: usize = 0;
    while i < items.len()
        invariant
            i <= items.len(),
            check == alert_checker(items@),
            first_problem(i as nat, check) is None,
        decreases items.len() - i,
    {
        let r = alert_problem(items, i);
        if r.is_some() {
            proof {
                lemma_first_problem_stable((i + 1) as nat, items.len() as nat, check);
            }
            return r;
        }
        i = i + 1;
    }
    None
}

fn first_command_problem(items: &Vec<AdapterEdgeCommand>) -> (r: Option<String>)
    ensures
        opt_text(r) == first_problem(items.len() as nat, command_checker(items@)),
{
    let ghost check = command_checker(items@);
    let mut i: usize = 0;
    while i < items.len()
        invariant
            i <= items.len(),
            check == command_checker(items@),
            first_problem(i as nat, check) is None,
        decreases items.len() - i,
    {
        let r = command_problem(items, i);
        if r.is_some() {
            proof {
                lemma_first_problem_stable((i + 1) as nat, items.len() as nat, check);
            }
            return r;
        }
        i = i + 1;
    }
    None
}

fn first_matter_problem(items: &Vec<MatterProfile>) -> (r: Option<String>)
    ensures
        opt_text(r) == first_problem(items.len() as nat, matter_checker(items@)),
{
    let ghost check = matter_checker(items@);
    let mut i: usize = 0;
    while i < items.len()
        invariant
            i <= items.len(),
            check == matter_checker(items@),
            first_problem(i as nat, check) is None,
        decreases items.len() - i,
    {
        let r = matter_problem(items, i);
        if r.is_some() {
            proof {
                lemma_first_problem_stable((i + 1) as nat, items.len() as nat, check);
            }
            return r;
        }
        i = i + 1;
    }
    None
}

fn first_bacnet_problem(items: &Vec<BacnetProfile>) -> (r: Option<String>)
    ensures
        opt_text(r) == first_problem(items.len() as nat, bacnet_checker(items@)),
{
    let ghost check = bacnet_checker(items@);
    let mut i: usize = 0;
    while i < items.len()
        invariant
            i <= items.len(),
            check == bacnet_checker(items@),
            first_problem(i as nat, check) is None,
        decreases items.len() - i,
    {
        let r = bacnet_problem(items, i);
        if r.is_some() {
            proof {
                lemma_first_problem_stable((i + 1) as nat, items.len() as nat, check);
            }
            return r;
        }
        i = i + 1;
    }
    None
}

fn first_knx_problem(items: &Vec<KnxProfile>) -> (r: Option<String>)
    ensures
        opt_text(r) == first_problem(items.len() as nat, knx_checker(items@)),
{
    let ghost check = knx_checker(items@);
    let mut i: usize = 0;
    while i < items.len()
        invariant
            i <= items.len(),
            check == knx_checker(items@),
            first_problem(i as nat, check) is None,
        decreases items.len() - i,
    {
        let r = knx_problem(items, i);
        if r.is_some() {
            proof {
                lemma_first_problem_stable((i + 1) as nat, items.len() as nat, check);
            }
            return r;
        }
        i = i + 1;
    }
    None
}

fn first_opcua_problem(items: &Vec<OpcUaProfile>) -> (r: Option<String>)
    ensures
        opt_text(r) == first_problem(items.len() as nat, opcua_checker(items@)),
{
    let ghost check = opcua_checker(items@);
    let mut i: usize = 0;
    while i < items.len()
        invariant
            i <= items.len(),
            check == opcua_checker(items@),
            first_problem(i as nat, check) is None,
        decreases items.len() - i,
    {
        let r = opcua_problem(items, i);
        if r.is_some() {
            proof {
                lemma_first_problem_stable((i + 1) as nat, items.len() as nat, check);
            }
            return r;
        }
        i = i + 1;
    }
    None
}

/// Checks protocol profiles: the required text of each Matter, BACnet, KNX
/// and OPC UA profile, a supported KNX direction, and a declared expected
/// state or value. The first problem, in that order, is the error.
pub fn validate_protocol_profiles(profiles: &AdapterProtocolProfiles) -> (r: Result<(), ScenarioError>)
    ensures
        match r {
            Ok(()) => profiles_problem(*profiles) is None,
            Err(ScenarioError::InvalidAdapterContract(m)) => profiles_problem(*profiles) == Some(m@),
            Err(_) => false,
        },
{
    match first_matter_problem(&profiles.matter) {
        Some(m) => {
            return Err(ScenarioError::InvalidAdapterContract(m));
        },
        None => {},
    }
    match first_bacnet_problem(&profiles.bacnet) {
        Some(m) => {
            return Err(ScenarioError::InvalidAdapterContract(m));
        },
        None => {},
    }
    match first_knx_problem(&profiles.knx) {
        Some(m) => {
            return Err(ScenarioError::InvalidAdapterContract(m));
        },
        None => {},
    }
    match first_opcua_problem(&profiles.opcua) {
        Some(m) => {
            return Err(ScenarioError::InvalidAdapterContract(m));
        },
        None => {},
    }
    Ok(())
}

/// Checks an adapter contract: a version and adapter name, at least one
/// declared surface, then devices, MQTT contracts, Modbus devices and
/// registers, BMS alerts, edge commands, protocol profiles, and the
/// acceptance section. `constraint_verdicts[i][j]` is the outcome of checking
/// the constraint of field `j`, in key order, of MQTT contract `i`, made by
/// the caller because it compares floating-point bounds. The first problem
/// is the error.
pub fn validate_adapter_contract(
    contract: &AdapterContract,
    constraint_verdicts: &Vec<Vec<Option<String>>>,
) -> (r: Result<(), ScenarioError>)
    ensures
        match r {
            Ok(()) => adapter_contract_problem(*contract, verdict_table(constraint_verdicts@)) is None,
            Err(e) => adapter_contract_problem(*contract, verdict_table(constraint_verdicts@))
                == Some(problem_view(e)),
        },
{
    let r = required("version", contract.version.as_str());
    match r {
        Some(m) => {
            return Err(ScenarioError::InvalidAdapterContract(m));
        },
        None => {},
    }
    let r = required("adapter.name", contract.adapter.name.as_str());
    match r {
        Some(m) => {
            return Err(ScenarioError::InvalidAdapterContract(m));
        },
        None => {},
    }
    let has_surface = contract.devices.len() > 0 || contract.mqtt.contracts.len() > 0
        || contract.modbus.devices.len() > 0 || contract.bms.alerts.len() > 0
        || contract.edge.commands.len() > 0 || contract.protocol_profiles.has_profiles();
    if !has_surface {
        return Err(
            ScenarioError::InvalidAdapterContract(
                to_owned(
                    "at least one device, MQTT contract, Modbus device, BMS alert, edge command, or protocol profile is required",
                ),
            ),
        );
    }
    match first_device_problem(&contract.devices) {
        Some(m) => {
            return Err(ScenarioError::InvalidAdapterContract(m));
        },
        None => {},
    }
    match validate_mqtt_contracts(contract.mqtt.contracts.as_slice(), constraint_verdicts) {
        Err(e) => {
            return Err(e);
        },
        Ok(()) => {},
    }
    match first_modbus_device_problem(&contract.modbus.devices) {
        Some(m) => {
            return Err(ScenarioError::InvalidAdapterContract(m));
        },
        None => {},
    }
    match first_alert_problem(&contract.bms.alerts) {
        Some(m) => {
            return Err(ScenarioError::InvalidAdapterContract(m));
        },
        None => {},
    }
    match first_command_problem(&contract.edge.commands) {
        Some(m) => {
            return Err(ScenarioError::InvalidAdapterContract(m));
        },
        None => {},
    }
    match validate_protocol_profiles(&contract.protocol_profiles) {
        Err(e) => {
            return Err(e);
        },
        Ok(()) => {},
    }
    if contract.acceptance.criteria.len() == 0 {
        return Err(
            ScenarioError::InvalidAdapterContract(
                to_owned("acceptance.criteria must declare at least one pass/fail criterion"),
            ),
        );
    }
    if contract.acceptance.report_formats.len() == 0 {
        return Err(
            ScenarioError::InvalidAdapterContract(
                to_owned("acceptance.report_formats must declare at least one report format"),
            ),
        );
    }
    validate_acceptance_mappings(&contract.acceptance)
}

} // verus!

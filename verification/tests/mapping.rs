use roomci::adapter::{AdapterAcceptance, AdapterAcceptanceMapping, AdapterAssertionReference};
use roomci::adapter_contract::{
    AdapterBms, AdapterContract, AdapterDevice, AdapterEdge, AdapterMetadata, AdapterModbus, AdapterMqtt,
    AdapterProtocolProfiles, AdapterSite,
};
use roomci::mapping::validate_adapter_scenario_mapping;
use roomci::mqtt_contract::{
    default_device_id_strategy, default_mqtt_adapter, MqttConnectionContract, MqttPayloadExpectation,
};
use roomci::scenario::ScenarioError;
use roomci::strmap::StrMap;
use roomci::typed::AssertionDef;
use roomci::validate::{ScenarioDef, ScenarioFacts};
use roomci::value::Value;

fn reference(scenario: &str, assertion: &str) -> AdapterAssertionReference {
    AdapterAssertionReference { scenario: scenario.to_string(), assertion: assertion.to_string() }
}

fn locks_contract() -> MqttConnectionContract {
    MqttConnectionContract {
        name: "locks".to_string(),
        adapter: default_mqtt_adapter(),
        command_topic: "site/{device_id}/set".to_string(),
        state_topic: "site/{device_id}/state".to_string(),
        device_id_from_topic: default_device_id_strategy(),
        payload: MqttPayloadExpectation {
            required_fields: Vec::new(),
            optional_fields: Vec::new(),
            fields: StrMap::new(),
        },
    }
}

fn mapped_contract(references: Vec<AdapterAssertionReference>) -> AdapterContract {
    AdapterContract {
        version: "adapter.v1".to_string(),
        adapter: AdapterMetadata { name: "room".to_string(), domain_pack: None, owner: None },
        site: AdapterSite { id: None, rooms: Vec::new() },
        devices: vec![AdapterDevice {
            id: "lock".to_string(),
            device_type: "smart_lock".to_string(),
            protocol: "mqtt".to_string(),
        }],
        mqtt: AdapterMqtt { contracts: vec![locks_contract()] },
        modbus: AdapterModbus { devices: Vec::new() },
        bms: AdapterBms { alerts: Vec::new() },
        edge: AdapterEdge { commands: Vec::new() },
        protocol_profiles: AdapterProtocolProfiles {
            matter: Vec::new(),
            bacnet: Vec::new(),
            knx: Vec::new(),
            opcua: Vec::new(),
        },
        auth: StrMap::new(),
        acceptance: AdapterAcceptance {
            criteria: vec!["The local broker stays up.".to_string()],
            report_formats: vec!["json".to_string()],
            mappings: vec![AdapterAcceptanceMapping {
                id: "broker-up".to_string(),
                criterion: "The local broker stays up.".to_string(),
                assertions: references,
                artifacts: Vec::new(),
            }],
        },
    }
}

fn named_assertion(name: &str) -> AssertionDef {
    AssertionDef {
        at: "T+1s".to_string(),
        name: Some(name.to_string()),
        target: Some("mqtt.local".to_string()),
        condition: Some(Value::Str("available".to_string())),
        mqtt: None,
        modbus: None,
        guest_experience: None,
        ops: None,
        inline_assert: None,
    }
}

fn scenario(name: &str, assertions: Vec<AssertionDef>) -> ScenarioDef {
    ScenarioDef {
        version: "0.1".to_string(),
        name: name.to_string(),
        devices: Vec::new(),
        scenes: StrMap::new(),
        lighting: StrMap::new(),
        contacts: StrMap::new(),
        edge: StrMap::new(),
        wan: StrMap::new(),
        inputs: StrMap::new(),
        commissioning: StrMap::new(),
        alerts: Vec::new(),
        modbus: StrMap::new(),
        contracts: Vec::new(),
        broker_cloud_enabled: false,
        faults: Vec::new(),
        steps: Vec::new(),
        assertions,
    }
}

fn facts(n: usize) -> Vec<ScenarioFacts> {
    (0..n)
        .map(|_| ScenarioFacts { constraint_verdicts: Vec::new(), humidity_in_range: Vec::new(), assertions: Vec::new() })
        .collect()
}

#[test]
fn mapping_resolves_named_assertions_of_supplied_scenarios() {
    let contract = mapped_contract(vec![reference("smoke_run", "broker_up")]);
    let scenarios = vec![scenario("smoke_run", vec![named_assertion("broker_up")])];
    assert_eq!(validate_adapter_scenario_mapping(&contract, &vec![], &scenarios, &facts(1)), Ok(()));
}

#[test]
fn mapping_reports_a_missing_scenario() {
    let contract = mapped_contract(vec![reference("other_run", "broker_up")]);
    let scenarios = vec![scenario("smoke_run", vec![named_assertion("broker_up")])];
    assert_eq!(
        validate_adapter_scenario_mapping(&contract, &vec![], &scenarios, &facts(1)),
        Err(ScenarioError::InvalidAdapterContract(
            "acceptance.mappings[0].assertions[0].scenario references missing supplied scenario other_run".to_string()
        ))
    );
}

#[test]
fn mapping_reports_a_missing_named_assertion() {
    let contract = mapped_contract(vec![reference("smoke_run", "broker_up"), reference("smoke_run", "lights_on")]);
    let scenarios = vec![scenario("smoke_run", vec![named_assertion("broker_up")])];
    assert_eq!(
        validate_adapter_scenario_mapping(&contract, &vec![], &scenarios, &facts(1)),
        Err(ScenarioError::InvalidAdapterContract(
            "acceptance.mappings[0].assertions[1].assertion references missing named assertion lights_on in scenario smoke_run"
                .to_string()
        ))
    );
}

#[test]
fn mapping_refuses_duplicate_scenario_names() {
    let contract = mapped_contract(vec![reference("smoke_run", "broker_up")]);
    let scenarios = vec![
        scenario("smoke_run", vec![named_assertion("broker_up")]),
        scenario("smoke_run", vec![named_assertion("broker_up")]),
    ];
    assert_eq!(
        validate_adapter_scenario_mapping(&contract, &vec![], &scenarios, &facts(2)),
        Err(ScenarioError::InvalidAdapterContract("scenario input duplicates scenario.name smoke_run".to_string()))
    );
}

#[test]
fn mapping_reports_an_invalid_supplied_scenario() {
    let contract = mapped_contract(vec![reference("smoke_run", "broker_up")]);
    let scenarios = vec![scenario("smoke_run", Vec::new())];
    assert_eq!(
        validate_adapter_scenario_mapping(&contract, &vec![], &scenarios, &facts(1)),
        Err(ScenarioError::ScenarioContract {
            field: "assertions".to_string(),
            reason: "must contain at least 1 item".to_string()
        })
    );
}

#[test]
fn mapping_reports_an_invalid_contract_first() {
    let mut contract = mapped_contract(vec![reference("other_run", "broker_up")]);
    contract.version = "  ".to_string();
    let scenarios = vec![scenario("smoke_run", Vec::new())];
    assert_eq!(
        validate_adapter_scenario_mapping(&contract, &vec![], &scenarios, &facts(1)),
        Err(ScenarioError::InvalidAdapterContract("version must not be empty".to_string()))
    );
}

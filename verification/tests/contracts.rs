use roomci::adapter::AdapterAcceptance;
use roomci::adapter_contract::{
    validate_adapter_contract, validate_protocol_profiles, AdapterBms, AdapterBmsAlert,
    AdapterContract, AdapterEdge, AdapterHmacMetadata, AdapterMetadata, AdapterModbus,
    AdapterModbusDevice, AdapterModbusRegister, AdapterMqtt, AdapterProtocolProfiles, AdapterSite,
    KnxProfile, MatterProfile,
};
use roomci::mqtt_contract::{
    default_device_id_strategy, default_mqtt_adapter, validate_mqtt_contracts,
    validate_mqtt_payload_expectation, MqttConnectionContract, MqttPayloadExpectation,
    MqttPayloadFieldConstraint, MqttPayloadFieldType,
};
use roomci::constraint::{constraint_declaration_problem, ConstraintFacts};
use roomci::scenario::ScenarioError;
use roomci::strmap::StrMap;
use roomci::value::Value;

fn strings(items: &[&str]) -> Vec<String> {
    items.iter().map(|s| s.to_string()).collect()
}

fn mqtt_contract(name: &str, command: &str, state: &str) -> MqttConnectionContract {
    MqttConnectionContract {
        name: name.to_string(),
        adapter: default_mqtt_adapter(),
        command_topic: command.to_string(),
        state_topic: state.to_string(),
        device_id_from_topic: default_device_id_strategy(),
        payload: MqttPayloadExpectation {
            required_fields: Vec::new(),
            optional_fields: Vec::new(),
            fields: StrMap::new(),
        },
    }
}

fn constraint(field_type: MqttPayloadFieldType) -> MqttPayloadFieldConstraint {
    MqttPayloadFieldConstraint { field_type, enum_values: Vec::new(), minimum: None, maximum: None }
}

fn contract(name: &str) -> AdapterContract {
    AdapterContract {
        version: "adapter.v1".to_string(),
        adapter: AdapterMetadata { name: name.to_string(), domain_pack: None, owner: None },
        site: AdapterSite { id: None, rooms: Vec::new() },
        devices: Vec::new(),
        mqtt: AdapterMqtt { contracts: Vec::new() },
        modbus: AdapterModbus { devices: Vec::new() },
        bms: AdapterBms { alerts: Vec::new() },
        edge: AdapterEdge { commands: Vec::new() },
        protocol_profiles: AdapterProtocolProfiles {
            matter: Vec::new(),
            bacnet: Vec::new(),
            knx: Vec::new(),
            opcua: Vec::new(),
        },
        auth: StrMap::new(),
        acceptance: AdapterAcceptance {
            criteria: strings(&["Run a thing."]),
            report_formats: strings(&["json"]),
            mappings: Vec::new(),
        },
    }
}

fn alert(severity_enum: &[&str]) -> AdapterBmsAlert {
    AdapterBmsAlert {
        id: "emergency".to_string(),
        source: "contact.emergency".to_string(),
        severity: "critical".to_string(),
        schema_version: None,
        content_type: None,
        severity_enum: strings(severity_enum),
        hmac: None,
        replay_window_seconds: None,
        channels: strings(&["slack"]),
        ticket_lifecycle: Vec::new(),
    }
}

fn contract_message(result: Result<(), ScenarioError>) -> String {
    match result {
        Err(ScenarioError::InvalidAdapterContract(message)) => message,
        other => panic!("expected an adapter contract error, got {other:?}"),
    }
}

#[test]
fn rejects_adapter_contract_without_surface() {
    let contract = contract("empty-contract");

    let message = contract_message(validate_adapter_contract(&contract, &vec![]));
    assert!(message.contains("at least one"));
}

#[test]
fn rejects_adapter_contract_with_invalid_modbus_access() {
    let mut contract = contract("invalid-modbus-access");
    contract.acceptance.criteria = strings(&["Register map is valid."]);
    contract.modbus.devices.push(AdapterModbusDevice {
        id: "meter".to_string(),
        unit_id: None,
        registers: vec![AdapterModbusRegister {
            address: 40001,
            name: "energy".to_string(),
            register_type: "holding".to_string(),
            access: "admin".to_string(),
            unit: None,
        }],
    });

    let message = contract_message(validate_adapter_contract(&contract, &vec![]));
    assert!(message.contains("unsupported access"));
    assert_eq!(
        message,
        "modbus register 40001 uses unsupported access admin; expected read, write, or read_write"
    );
}

#[test]
fn rejects_adapter_contract_with_invalid_bms_hardening_fields() {
    let mut invalid_content_type = contract("invalid-bms-content-type");
    let mut content_alert = alert(&[]);
    content_alert.content_type = Some("text/plain".to_string());
    invalid_content_type.bms.alerts.push(content_alert);
    let message = contract_message(validate_adapter_contract(&invalid_content_type, &vec![]));
    assert!(message.contains("unsupported content_type"));

    let mut invalid_hmac = contract("invalid-bms-hmac");
    let mut hmac_alert = alert(&["info", "warning"]);
    hmac_alert.hmac = Some(AdapterHmacMetadata {
        header: "X-Signature".to_string(),
        algorithm: "sha1".to_string(),
        secret_ref: "env:SECRET".to_string(),
    });
    hmac_alert.replay_window_seconds = Some(0);
    invalid_hmac.bms.alerts.push(hmac_alert);
    let message = contract_message(validate_adapter_contract(&invalid_hmac, &vec![]));
    assert!(message.contains("severity critical is not declared"));
}

#[test]
fn rejects_adapter_contract_with_invalid_protocol_profile() {
    let mut invalid_knx_direction = contract("invalid-knx-profile");
    invalid_knx_direction.protocol_profiles.knx.push(KnxProfile {
        name: "scene".to_string(),
        gateway: "knx-gateway".to_string(),
        group_address: "1/2/3".to_string(),
        datapoint_type: "DPT-1.001".to_string(),
        direction: "tunnel".to_string(),
        expected_value: Value::Bool(true),
        function: "scene activation".to_string(),
        room: None,
        acceptance: Vec::new(),
    });
    let message = contract_message(validate_adapter_contract(&invalid_knx_direction, &vec![]));
    assert!(message.contains("unsupported direction"));

    let mut missing_matter_expected_state = contract("invalid-matter-profile");
    missing_matter_expected_state.protocol_profiles.matter.push(MatterProfile {
        name: "light".to_string(),
        gateway: "matter-gateway".to_string(),
        device_id: "light-01".to_string(),
        endpoint_id: 1,
        cluster: "OnOff".to_string(),
        attribute: "OnOff".to_string(),
        command: "On".to_string(),
        expected_state: StrMap::new(),
        acceptance: Vec::new(),
    });
    let message =
        contract_message(validate_adapter_contract(&missing_matter_expected_state, &vec![]));
    assert!(message.contains("expected_state"));
    assert_eq!(
        contract_message(validate_protocol_profiles(&missing_matter_expected_state.protocol_profiles)),
        "Matter profile light must declare expected_state"
    );
}

#[test]
fn rejects_ambiguous_mqtt_connection_contracts() {
    let contracts = vec![
        mqtt_contract(
            "first",
            "fleet/demo/device/{device_id}/command",
            "fleet/demo/device/{device_id}/state",
        ),
        mqtt_contract(
            "second",
            "fleet/demo/device/{device_id}/command",
            "fleet/demo/device/{device_id}/shadow",
        ),
    ];

    let error = validate_mqtt_contracts(&contracts, &vec![]).unwrap_err();

    assert!(matches!(error, ScenarioError::AmbiguousMqttMapping(_)));
    assert_eq!(
        error,
        ScenarioError::AmbiguousMqttMapping(
            "fleet/demo/device/{device_id}/command used by first and second".to_string()
        )
    );
}

#[test]
fn adapter_contract_with_a_device_and_acceptance_passes() {
    let mut contract = contract("room");
    contract.devices.push(roomci::adapter_contract::AdapterDevice {
        id: "lock".to_string(),
        device_type: "smart_lock".to_string(),
        protocol: "mqtt".to_string(),
    });
    contract.mqtt.contracts.push(mqtt_contract(
        "locks",
        "site/{device_id}/set",
        "site/{device_id}/state",
    ));

    assert_eq!(validate_adapter_contract(&contract, &vec![]), Ok(()));

    contract.version = "  ".to_string();
    assert_eq!(contract_message(validate_adapter_contract(&contract, &vec![])), "version must not be empty");
}

#[test]
fn mqtt_contract_placeholders_must_match_and_be_device_ids() {
    let mismatched = vec![mqtt_contract("m", "a/{device_id}/set", "a/{device_id}/{room}/state")];
    assert_eq!(
        validate_mqtt_contracts(&mismatched, &vec![]).unwrap_err(),
        ScenarioError::InvalidMqttTopic {
            field: "mqtt.contracts[m].state_topic".to_string(),
            value: "a/{device_id}/{room}/state".to_string(),
            reason: "placeholders must match command_topic; command_topic has [{device_id}], state_topic has [{device_id}, {room}]".to_string(),
        }
    );

    let twice = vec![mqtt_contract("t", "a/{device_id}/{device_id}", "a/{device_id}/state")];
    assert_eq!(
        validate_mqtt_contracts(&twice, &vec![]).unwrap_err(),
        ScenarioError::InvalidMqttTopic {
            field: "mqtt.contracts[t].command_topic".to_string(),
            value: "a/{device_id}/{device_id}".to_string(),
            reason: "must include exactly one {device_id} placeholder".to_string(),
        }
    );

    let mut adapter = mqtt_contract("x", "a/{device_id}/set", "a/{device_id}/state");
    adapter.adapter = "mqtt_v5".to_string();
    assert_eq!(
        validate_mqtt_contracts(&[adapter], &vec![]).unwrap_err(),
        ScenarioError::UnsupportedMqttAdapter("mqtt_v5".to_string())
    );

    let mut strategy = mqtt_contract("y", "a/{device_id}/set", "a/{device_id}/state");
    strategy.device_id_from_topic = "segment:2".to_string();
    assert_eq!(
        validate_mqtt_contracts(&[strategy], &vec![]).unwrap_err(),
        ScenarioError::UnsupportedMqttDeviceIdStrategy("y".to_string(), "segment:2".to_string())
    );

    let bad_name = vec![mqtt_contract("a b", "a/{device_id}/set", "a/{device_id}/state")];
    assert_eq!(
        validate_mqtt_contracts(&bad_name, &vec![]).unwrap_err(),
        ScenarioError::InvalidIdentifier {
            field: "mqtt.contracts[].name".to_string(),
            value: "a b".to_string(),
        }
    );
}

#[test]
fn mqtt_payload_expectations_report_the_first_problem() {
    let mut both = mqtt_contract("p", "a/{device_id}/set", "a/{device_id}/state");
    both.payload.required_fields = strings(&["zeta", "mode", "alpha"]);
    both.payload.optional_fields = strings(&["zeta", "alpha"]);
    assert_eq!(
        validate_mqtt_payload_expectation(&both, &vec![]),
        Err(ScenarioError::InvalidAdapterContract(
            "mqtt.contracts[p].payload.fields.alpha cannot be both required and optional".to_string()
        ))
    );

    let mut undeclared = mqtt_contract("p", "a/{device_id}/set", "a/{device_id}/state");
    undeclared.payload.optional_fields = strings(&["level"]);
    assert_eq!(
        validate_mqtt_payload_expectation(&undeclared, &vec![]),
        Err(ScenarioError::InvalidAdapterContract(
            "mqtt.contracts[p].payload.optional_fields contains level, but mqtt.contracts[p].payload.fields.level is not declared".to_string()
        ))
    );

    let mut duplicate = mqtt_contract("p", "a/{device_id}/set", "a/{device_id}/state");
    duplicate.payload.required_fields = strings(&["mode", "mode"]);
    assert_eq!(
        validate_mqtt_payload_expectation(&duplicate, &vec![]),
        Err(ScenarioError::InvalidAdapterContract(
            "mqtt.contracts[p].payload.required_fields contains duplicate field mode".to_string()
        ))
    );

    let mut unlisted = mqtt_contract("p", "a/{device_id}/set", "a/{device_id}/state");
    unlisted.payload.fields.insert("extra".to_string(), constraint(MqttPayloadFieldType::String));
    assert_eq!(
        validate_mqtt_payload_expectation(&unlisted, &vec![]),
        Err(ScenarioError::InvalidAdapterContract(
            "mqtt.contracts[p].payload.fields.extra must be listed in required_fields or optional_fields".to_string()
        ))
    );

    let mut verdict = mqtt_contract("p", "a/{device_id}/set", "a/{device_id}/state");
    verdict.payload.required_fields = strings(&["level"]);
    verdict.payload.fields.insert("level".to_string(), constraint(MqttPayloadFieldType::Integer));
    assert_eq!(validate_mqtt_payload_expectation(&verdict, &vec![None]), Ok(()));
    assert_eq!(
        validate_mqtt_payload_expectation(&verdict, &vec![Some("bound problem".to_string())]),
        Err(ScenarioError::InvalidAdapterContract("bound problem".to_string()))
    );
    assert_eq!(
        validate_mqtt_contracts(&[verdict], &vec![vec![Some("bound problem".to_string())]]),
        Err(ScenarioError::InvalidAdapterContract("bound problem".to_string()))
    );
}

#[test]
fn payload_field_types_name_and_classify_themselves() {
    assert_eq!(MqttPayloadFieldType::Integer.as_str(), "integer");
    assert_eq!(MqttPayloadFieldType::Array.as_str(), "array");
    assert!(MqttPayloadFieldType::Number.is_numeric());
    assert!(!MqttPayloadFieldType::Boolean.is_numeric());
}

fn facts(texts: &[&str], repeats: &[bool], ambiguous: &[bool], out: &[bool]) -> ConstraintFacts {
    ConstraintFacts {
        minimum_beyond_exact: false,
        maximum_beyond_exact: false,
        bounds_order: Some(-1),
        enum_texts: texts.iter().map(|t| t.to_string()).collect(),
        enum_repeats_number: repeats.to_vec(),
        enum_ambiguous: ambiguous.to_vec(),
        enum_out_of_range: out.to_vec(),
    }
}

fn declared(
    field_type: MqttPayloadFieldType,
    enum_values: Vec<Value>,
    minimum: Option<Value>,
    maximum: Option<Value>,
) -> MqttPayloadFieldConstraint {
    MqttPayloadFieldConstraint { field_type, enum_values, minimum, maximum }
}

#[test]
fn field_constraint_declarations_are_checked_in_order() {
    let fp = "mqtt.contracts[c].payload.fields.level";
    let c = declared(MqttPayloadFieldType::String, vec![], Some(Value::Int(1)), None);
    assert_eq!(
        constraint_declaration_problem(fp, &c, &facts(&[], &[], &[], &[])),
        Some(format!("{fp}.minimum is only supported for integer or number fields"))
    );
    let c = declared(MqttPayloadFieldType::Integer, vec![], None, Some(Value::Float(2.5f64.to_bits())));
    assert_eq!(
        constraint_declaration_problem(fp, &c, &facts(&[], &[], &[], &[])),
        Some(format!("{fp}.maximum must be an integer"))
    );
    let c = declared(MqttPayloadFieldType::Integer, vec![], Some(Value::Int(5)), Some(Value::Int(1)));
    let mut f = facts(&[], &[], &[], &[]);
    f.bounds_order = Some(1);
    assert_eq!(
        constraint_declaration_problem(fp, &c, &f),
        Some(format!("{fp}.minimum must be less than or equal to maximum"))
    );
    let c = declared(MqttPayloadFieldType::String, vec![Value::Int(1)], None, None);
    assert_eq!(
        constraint_declaration_problem(fp, &c, &facts(&["1"], &[false], &[false], &[false])),
        Some(format!("{fp}.enum value 1 does not match declared type string"))
    );
    let c = declared(
        MqttPayloadFieldType::String,
        vec![Value::Str("on".to_string()), Value::Str("on".to_string())],
        None,
        None,
    );
    assert_eq!(
        constraint_declaration_problem(fp, &c, &facts(&["\"on\"", "\"on\""], &[false, false], &[false, false], &[false, false])),
        Some(format!("{fp}.enum contains duplicate value \"on\""))
    );
    let c = declared(MqttPayloadFieldType::Integer, vec![Value::Int(9)], Some(Value::Int(0)), Some(Value::Int(5)));
    assert_eq!(
        constraint_declaration_problem(fp, &c, &facts(&["9"], &[false], &[false], &[true])),
        Some(format!("{fp}.enum value 9 is outside the declared range"))
    );
    let c = declared(MqttPayloadFieldType::Integer, vec![Value::Int(3)], Some(Value::Int(0)), Some(Value::Int(5)));
    assert_eq!(constraint_declaration_problem(fp, &c, &facts(&["3"], &[false], &[false], &[false])), None);
}

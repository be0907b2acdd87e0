use roomci::adapter::{
    validate_acceptance_mappings, AdapterAcceptance, AdapterAcceptanceMapping,
    AdapterAssertionReference,
};
use roomci::checks::{
    extract_mqtt_placeholder_value, match_mqtt_contract, match_mqtt_contracts,
    mqtt_runtime_topic_is_valid, mqtt_topic_placeholders, require_non_empty,
    sanitize_diagnostic_value, validate_evidence_id, validate_mqtt_contract_name,
    validate_scenario_header, validate_scenario_name, validate_scenario_version, MqttContractTopics,
};
use roomci::scenario::{
    typed_fault_kind, validate_mqtt_topic_text, CommandTarget, FaultStep, Identifier, MqttTopic,
    MqttTopicTemplate, ScenarioError, SensorTarget, TypedFaultKind, ValidatedFaultKind,
};
use roomci::timing::{parse_duration, resolve_time_offset};

fn fault(target: &str, fault_type: &str) -> FaultStep {
    FaultStep {
        at: None,
        target: target.to_string(),
        fault_type: fault_type.to_string(),
        duration: None,
        severity: None,
        topic: None,
        count: None,
    }
}

#[test]
fn rejects_invalid_time_offset() {
    let error = resolve_time_offset("invalid_time").unwrap_err();

    assert!(matches!(error, ScenarioError::InvalidRelativeTime(_)));
}

#[test]
fn rejects_invalid_duration() {
    let error = parse_duration("notaduration").unwrap_err();

    assert!(matches!(error, ScenarioError::InvalidDuration(_)));
}

#[test]
fn rejects_out_of_range_duration() {
    let error = parse_duration("9999999999999h").unwrap_err();

    assert!(matches!(error, ScenarioError::InvalidDuration(_)));
}

#[test]
fn durations_and_offsets_resolve_to_milliseconds() {
    assert_eq!(parse_duration("15s"), Ok(15_000));
    assert_eq!(parse_duration("2m"), Ok(120_000));
    assert_eq!(parse_duration("1h"), Ok(3_600_000));
    assert!(parse_duration("s").is_err());
    assert!(parse_duration("5d").is_err());
    assert_eq!(resolve_time_offset("T"), Ok(0));
    assert_eq!(resolve_time_offset("T+30s"), Ok(30_000));
    assert_eq!(resolve_time_offset("T-1m"), Ok(-60_000));
    assert_eq!(
        resolve_time_offset("T*1m"),
        Err(ScenarioError::InvalidRelativeTime("T*1m".to_string()))
    );
    assert_eq!(
        resolve_time_offset("T+1x"),
        Err(ScenarioError::InvalidDuration("1x".to_string()))
    );
}

#[test]
fn identifiers_reject_blank_and_whitespace() {
    assert_eq!(Identifier::parse("devices[].id", "lamp").unwrap().as_str(), "lamp");
    assert_eq!(
        Identifier::parse("devices[].id", "living lamp").unwrap_err(),
        ScenarioError::InvalidIdentifier {
            field: "devices[].id".to_string(),
            value: "living lamp".to_string()
        }
    );
    assert!(Identifier::parse("devices[].id", "  ").is_err());
}

#[test]
fn mqtt_topics_must_be_concrete() {
    assert!(MqttTopic::parse("faults[].topic", "a/b").is_ok());
    assert_eq!(
        MqttTopic::parse("faults[].topic", "a/#").unwrap_err(),
        ScenarioError::InvalidMqttTopic {
            field: "faults[].topic".to_string(),
            value: "a/#".to_string(),
            reason: "must be a concrete publish topic, not a wildcard subscription".to_string(),
        }
    );
    assert_eq!(
        validate_mqtt_topic_text("t", " a", false).unwrap_err(),
        ScenarioError::InvalidMqttTopic {
            field: "t".to_string(),
            value: " a".to_string(),
            reason: "must not contain leading or trailing whitespace".to_string(),
        }
    );
    assert!(MqttTopicTemplate::parse("t", "a/{device_id}/command").is_ok());
    assert!(MqttTopicTemplate::parse("t", "a/b/command").is_err());
}

#[test]
fn command_targets_recognise_scenes() {
    let scene = CommandTarget::parse("scene.welcome").unwrap();
    assert_eq!(scene.as_str(), "welcome");
    assert_eq!(scene.display_target(), "scene.welcome");
    let lamp = CommandTarget::parse("living_lamp").unwrap();
    assert_eq!(lamp.display_target(), "living_lamp");
    assert_eq!(
        CommandTarget::parse("scene.").unwrap_err(),
        ScenarioError::InvalidIdentifier {
            field: "steps[].command.target".to_string(),
            value: "".to_string()
        }
    );
    assert_eq!(SensorTarget::parse("zone_1").unwrap().as_str(), "zone_1");
}

#[test]
fn fault_catalogue_types_each_supported_pair() {
    assert!(matches!(
        typed_fault_kind(&fault("mqtt.cloud", "offline")).unwrap(),
        TypedFaultKind::BrokerOffline { .. }
    ));
    assert!(matches!(
        typed_fault_kind(&fault("dali.fixture.D411S10", "command_drop")).unwrap(),
        TypedFaultKind::DaliFixtureCommandDrop { fixture, .. } if fixture == "D411S10"
    ));
    assert_eq!(
        typed_fault_kind(&fault("edge.primary", "imaginary_failure")).unwrap_err(),
        ScenarioError::InvalidFaultKind {
            target: "edge.primary".to_string(),
            fault_type: "imaginary_failure".to_string()
        }
    );
}

#[test]
fn validated_faults_keep_target_and_type() {
    for (target, kind) in [
        ("network.segment.lobby", "isolated"),
        ("firewall.policy.guest", "drift"),
        ("control_panel.circuit_protector.cp1", "tripped"),
        ("control_panel.psu.p2", "degraded"),
        ("dali.fixture.D1", "command_drop"),
        ("wan.primary", "down"),
        ("mqtt.local", "offline"),
    ] {
        let validated = ValidatedFaultKind::try_from_fault(&fault(target, kind)).unwrap();
        assert_eq!(validated.target(), target);
        assert_eq!(validated.fault_type(), kind);
    }
    let mut duplicate = fault("mqtt.local", "duplicate_delivery");
    duplicate.topic = Some("a/+".to_string());
    assert!(matches!(
        ValidatedFaultKind::try_from_fault(&duplicate).unwrap_err(),
        ScenarioError::InvalidMqttTopic { .. }
    ));
}

#[test]
fn scenario_names_and_versions() {
    assert!(validate_scenario_name("local_first_1").is_ok());
    assert_eq!(
        validate_scenario_name("").unwrap_err(),
        ScenarioError::ScenarioContract {
            field: "scenario.name".to_string(),
            reason: "must not be empty".to_string()
        }
    );
    assert!(validate_scenario_name("Local").is_err());
    assert!(validate_scenario_version("0.1").is_ok());
    assert!(validate_scenario_version("v0.1.7").is_ok());
    assert!(matches!(
        validate_scenario_version("V0.1").unwrap_err(),
        ScenarioError::InvalidScenarioVersion { version, .. } if version == "V0.1"
    ));
    assert_eq!(
        validate_scenario_version("0.2").unwrap_err(),
        ScenarioError::InvalidScenarioVersion {
            version: "0.2".to_string(),
            reason: "unsupported scenario version. Supported versions: 0.1".to_string()
        }
    );
    assert_eq!(
        validate_scenario_version("0.01").unwrap_err(),
        ScenarioError::InvalidScenarioVersion {
            version: "0.01".to_string(),
            reason: "must not use leading zero in numeric components".to_string()
        }
    );
    assert!(matches!(
        validate_scenario_version("99999999999999999999.1").unwrap_err(),
        ScenarioError::InvalidScenarioVersion { reason, .. } if reason == "major version must fit u64"
    ));
    assert!(matches!(
        validate_scenario_version(" 0.1").unwrap_err(),
        ScenarioError::InvalidScenarioVersion { reason, .. }
            if reason == "must not contain leading or trailing whitespace"
    ));
    assert!(validate_scenario_version("1.2.3.4").is_err());
}

#[test]
fn evidence_ids_and_required_text() {
    assert!(validate_evidence_id("f", "ac-1_x").is_ok());
    assert_eq!(
        validate_evidence_id("mappings[0].id", "-x").unwrap_err(),
        ScenarioError::InvalidAdapterContract(
            "mappings[0].id must be at most 128 bytes and match ^[a-z0-9][a-z0-9_-]*$".to_string()
        )
    );
    assert_eq!(
        require_non_empty("adapter.name", " ").unwrap_err(),
        ScenarioError::InvalidAdapterContract("adapter.name must not be empty".to_string())
    );
}

#[test]
fn diagnostics_escape_and_bound_untrusted_text() {
    assert_eq!(sanitize_diagnostic_value("a\tb\u{202e}c d"), "a\\tb\\u{202e}c d");
    let long = "x".repeat(300);
    let shown = sanitize_diagnostic_value(&long);
    assert_eq!(shown.chars().count(), 257);
    assert!(shown.ends_with('…'));
    assert!(validate_mqtt_contract_name("room_lights").is_ok());
    assert_eq!(
        validate_mqtt_contract_name("bad[name]").unwrap_err(),
        ScenarioError::InvalidIdentifier {
            field: "mqtt.contracts[].name".to_string(),
            value: "bad[name]".to_string()
        }
    );
}

#[test]
fn topic_placeholders_are_listed_or_rejected() {
    assert_eq!(
        mqtt_topic_placeholders("f", "a/{device_id}/b/{room}").unwrap(),
        vec!["{device_id}".to_string(), "{room}".to_string()]
    );
    assert_eq!(
        mqtt_topic_placeholders("f", "a/{}").unwrap_err(),
        ScenarioError::InvalidMqttTopic {
            field: "f".to_string(),
            value: "a/{}".to_string(),
            reason: "contains an empty placeholder".to_string()
        }
    );
    assert!(mqtt_topic_placeholders("f", "a/{x").is_err());
    assert!(mqtt_topic_placeholders("f", "a/x}").is_err());
    assert!(mqtt_topic_placeholders("f", "a/{{x}}").is_err());
}

#[test]
fn placeholder_values_and_contract_matching() {
    assert_eq!(
        extract_mqtt_placeholder_value("site/{device_id}/command", "site/lamp/command", "{device_id}"),
        Some("lamp".to_string())
    );
    assert_eq!(
        extract_mqtt_placeholder_value("site/{device_id}/command", "site/a/b/command", "{device_id}"),
        None
    );
    assert!(mqtt_runtime_topic_is_valid("site/lamp/command"));
    assert!(!mqtt_runtime_topic_is_valid("site/+/command"));
    let contracts = vec![
        MqttContractTopics {
            name: "other".to_string(),
            command_topic: "x/{device_id}/command".to_string(),
            state_topic: "x/{device_id}/state".to_string(),
        },
        MqttContractTopics {
            name: "lights".to_string(),
            command_topic: "site/{device_id}/command".to_string(),
            state_topic: "site/{device_id}/state/{device_id}".to_string(),
        },
    ];
    let matched = match_mqtt_contracts(&contracts, "site/lamp/command").unwrap();
    assert_eq!(matched.contract.name, "lights");
    assert_eq!(matched.device_id, "lamp");
    assert_eq!(matched.state_topic, "site/lamp/state/lamp");
    assert!(match_mqtt_contract(&contracts[0], "site/lamp/command").is_none());
    assert!(match_mqtt_contracts(&contracts, "elsewhere").is_none());
}

fn acceptance() -> AdapterAcceptance {
    AdapterAcceptance {
        criteria: vec!["Lights follow the scene".to_string()],
        report_formats: vec!["json".to_string(), "junit".to_string()],
        mappings: vec![AdapterAcceptanceMapping {
            id: "ac-1".to_string(),
            criterion: "Lights follow the scene".to_string(),
            assertions: vec![AdapterAssertionReference {
                scenario: "dali_scene".to_string(),
                assertion: "scene-complete".to_string(),
            }],
            artifacts: vec!["junit".to_string()],
        }],
    }
}

#[test]
fn acceptance_mappings_accept_a_resolvable_mapping() {
    assert!(validate_acceptance_mappings(&acceptance()).is_ok());
}

#[test]
fn acceptance_mappings_report_the_first_problem() {
    let mut duplicate_format = acceptance();
    duplicate_format.report_formats.push("json".to_string());
    assert_eq!(
        validate_acceptance_mappings(&duplicate_format).unwrap_err(),
        ScenarioError::InvalidAdapterContract(
            "acceptance.report_formats[2] duplicates report format".to_string()
        )
    );

    let mut unknown_criterion = acceptance();
    unknown_criterion.mappings[0].criterion = "Something else".to_string();
    assert_eq!(
        validate_acceptance_mappings(&unknown_criterion).unwrap_err(),
        ScenarioError::InvalidAdapterContract(
            "acceptance.mappings[0].criterion does not match any acceptance.criteria entry".to_string()
        )
    );

    let mut undeclared = acceptance();
    undeclared.mappings[0].artifacts = vec!["markdown".to_string()];
    assert_eq!(
        validate_acceptance_mappings(&undeclared).unwrap_err(),
        ScenarioError::InvalidAdapterContract(
            "acceptance.mappings[0].artifacts[0] references markdown, which is not declared in acceptance.report_formats"
                .to_string()
        )
    );

    let mut repeated = acceptance();
    let again = AdapterAssertionReference {
        scenario: "dali_scene".to_string(),
        assertion: "scene-complete".to_string(),
    };
    repeated.mappings[0].assertions.push(again);
    assert_eq!(
        validate_acceptance_mappings(&repeated).unwrap_err(),
        ScenarioError::InvalidAdapterContract(
            "acceptance.mappings[0].assertions[1] duplicates assertion reference dali_scene:scene-complete"
                .to_string()
        )
    );

    let mut bad_scenario = acceptance();
    bad_scenario.mappings[0].assertions[0].scenario = "Bad Name".to_string();
    assert_eq!(
        validate_acceptance_mappings(&bad_scenario).unwrap_err(),
        ScenarioError::InvalidAdapterContract(
            "acceptance.mappings[0].assertions[0].scenario must be at most 128 bytes and match ^[a-z0-9][a-z0-9_]*$"
                .to_string()
        )
    );
}

#[test]
fn rejects_empty_assertions_array() {
    let error = validate_scenario_header("0.1", "no_assertions", 0).unwrap_err();
    assert!(matches!(
        error,
        ScenarioError::ScenarioContract { field, .. } if field == "assertions"
    ));
}

#[test]
fn rejects_invalid_scenario_name_pattern() {
    let error = validate_scenario_header("0.1", "UpperCamel", 1).unwrap_err();
    assert!(matches!(
        error,
        ScenarioError::ScenarioContract { field, .. } if field == "scenario.name"
    ));
}

#[test]
fn scenario_header_checks_version_first() {
    assert!(validate_scenario_header("0.1", "local_first", 1).is_ok());
    assert!(matches!(
        validate_scenario_header("banana", "UpperCamel", 0).unwrap_err(),
        ScenarioError::InvalidScenarioVersion { version, .. } if version == "banana"
    ));
}

#[test]
fn placeholder_value_round_trips_a_segment() {
    let template = "fleet/{device_id}/command";
    let value = template.replacen("{device_id}", "env-01", 1);
    assert_eq!(
        extract_mqtt_placeholder_value(template, &value, "{device_id}"),
        Some("env-01".to_string())
    );
    assert_eq!(extract_mqtt_placeholder_value(template, "fleet/a b/command", "{device_id}"), None);
}

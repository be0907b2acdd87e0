use roomci::cli::{next_steps, shell_quote, validate_run_id, Contract, Outcome};

fn contract() -> Contract {
    Contract {
        scenario: "external".to_string(),
        broker_host: "127.0.0.1".to_string(),
        broker_port: 1883,
        proxy_host: "localhost".to_string(),
        proxy_api_port: 8474,
        proxy_port: 21883,
        proxy_name: "mqtt_proxy".to_string(),
        device_id: "sensor-01".to_string(),
        initial_value: "old".to_string(),
        latest_value: "new".to_string(),
        ready_timeout_ms: 5_000,
        fault_timeout_ms: 5_000,
        recovery_timeout_ms: 5_000,
        stability_ms: 1_000,
    }
}

#[test]
fn external_contract_accepts_a_complete_contract() {
    assert_eq!(contract().validate(), Ok(()));
}

#[test]
fn external_contract_names_the_first_bad_field() {
    let mut c = contract();
    c.device_id = "sensor_01".to_string();
    assert_eq!(c.validate(), Err("device_id must use ASCII letters, digits or hyphens".to_string()));
    let mut c = contract();
    c.latest_value = "old".to_string();
    assert_eq!(c.validate(), Err("initial_value and latest_value must differ".to_string()));
    let mut c = contract();
    c.stability_ms = 50;
    assert_eq!(c.validate(), Err("stability_ms must be 100..120000".to_string()));
    let mut c = contract();
    c.broker_host = "bad host".to_string();
    assert_eq!(c.validate(), Err("broker_host must be a DNS name or IP address".to_string()));
    let mut c = contract();
    c.scenario = String::new();
    assert_eq!(c.validate(), Err("scenario must contain 1..128 printable characters".to_string()));
}

#[test]
fn run_ids_are_short_ascii_words() {
    assert!(validate_run_id("ci-42").is_ok());
    assert_eq!(
        validate_run_id("ci_42"),
        Err("run_id must use 1..64 ASCII letters, digits or hyphens".to_string())
    );
    assert!(validate_run_id(&"a".repeat(65)).is_err());
}

#[test]
fn outcome_reasons_and_verdicts() {
    assert_eq!(Outcome::Passed.reason(), "latest_report_stable");
    assert_eq!(Outcome::Passed.verdict(), "passed");
    assert_eq!(Outcome::Failed("stale_report").reason(), "stale_report");
    assert_eq!(Outcome::Inconclusive("timeout".to_string()).verdict(), "inconclusive");
}

#[test]
fn next_steps_quote_only_when_needed() {
    assert_eq!(
        next_steps("."),
        "next steps:\n  roomci validate roomci/smoke.yaml\n  roomci run roomci/smoke.yaml --verbose"
    );
    assert_eq!(
        next_steps("my dir/it's"),
        "next steps:\n  roomci validate 'my dir/it'\"'\"'s/roomci/smoke.yaml'\n  roomci run 'my dir/it'\"'\"'s/roomci/smoke.yaml' --verbose"
    );
    assert_eq!(shell_quote("a/b-c.yaml"), "a/b-c.yaml");
    assert_eq!(shell_quote(""), "''");
}

#[test]
fn next_steps_treat_spellings_of_the_current_directory_as_current() {
    let expected = "next steps:\n  roomci validate roomci/smoke.yaml\n  roomci run roomci/smoke.yaml --verbose";
    assert_eq!(next_steps("./"), expected);
    assert_eq!(next_steps(".//"), expected);
    assert_eq!(next_steps("./."), expected);
    assert_eq!(
        next_steps("../site"),
        "next steps:\n  roomci validate ../site/roomci/smoke.yaml\n  roomci run ../site/roomci/smoke.yaml --verbose"
    );
    assert_eq!(
        next_steps(".."),
        "next steps:\n  roomci validate ../roomci/smoke.yaml\n  roomci run ../roomci/smoke.yaml --verbose"
    );
}

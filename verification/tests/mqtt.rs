use roomci::mqtt::{
    device_id_from_command_topic, state_topic_for_command_topic, BrokerModel, DeviceCommandPublish,
    MqttError,
};
use roomci::strmap::StrMap;
use roomci::value::Value;

fn payload() -> StrMap<Value> {
    let mut p = StrMap::new();
    p.insert("power".to_string(), Value::Bool(true));
    p.insert("brightness".to_string(), Value::Int(60));
    p
}

const LIVING_LIGHT_COMMAND: &str = "house/minakami/room/living/device/living_light/command";
const LIVING_LIGHT_STATE: &str = "house/minakami/room/living/device/living_light/state";

#[test]
fn retained_state_survives_cloud_outage() {
    let mut broker = BrokerModel::new(true, true);
    broker.set_online("mqtt.cloud", false);

    let outcome = broker
        .publish_device_command("mqtt.local", "ipad_controller", LIVING_LIGHT_COMMAND, payload(), 1)
        .unwrap();

    assert_eq!(outcome.device_id.as_deref(), Some("living_light"));
    assert!(broker.retained().contains_key(LIVING_LIGHT_STATE));
}

#[test]
fn duplicate_delivery_is_idempotent_for_retained_state() {
    let mut broker = BrokerModel::new(true, false);

    let outcome = broker
        .publish_device_command("mqtt.local", "ipad_controller", LIVING_LIGHT_COMMAND, payload(), 3)
        .unwrap();

    assert_eq!(outcome.deliveries, 3);
    assert_eq!(broker.retained().len(), 1);
    assert_eq!(broker.retained().get(LIVING_LIGHT_STATE), Some(&payload()));
}

#[test]
fn publishing_to_offline_broker_returns_error() {
    let mut broker = BrokerModel::new(false, false);

    let error = broker
        .publish_device_command("mqtt.local", "ipad_controller", LIVING_LIGHT_COMMAND, payload(), 1)
        .unwrap_err();

    assert_eq!(error, MqttError::BrokerOffline("mqtt.local".to_string()));
}

#[test]
fn non_device_command_topic_is_rejected() {
    let mut broker = BrokerModel::new(true, false);

    let error = broker
        .publish_device_command(
            "mqtt.local",
            "ipad_controller",
            "house/minakami/room/living/status",
            payload(),
            1,
        )
        .unwrap_err();

    assert!(matches!(error, MqttError::InvalidCommandTopic(_)));
}

#[test]
fn malformed_device_command_topic_is_rejected() {
    assert_eq!(device_id_from_command_topic("house/device//command"), None);
    assert_eq!(device_id_from_command_topic("house/device/living_light/extra/command"), None);
}

#[test]
fn device_id_is_the_segment_before_command_after_device() {
    assert_eq!(
        device_id_from_command_topic("site/device/hub/device/lamp/command"),
        Some("lamp".to_string())
    );
    assert_eq!(device_id_from_command_topic("device/lamp/command"), Some("lamp".to_string()));
    assert_eq!(device_id_from_command_topic("lamp/command"), None);
    assert_eq!(
        state_topic_for_command_topic("site/device/hub/device/lamp/command"),
        Some("site/device/hub/device/lamp/state".to_string())
    );
}

#[test]
fn reconnect_receives_retained_state() {
    let mut broker = BrokerModel::new(true, false);
    broker
        .publish_device_command("mqtt.local", "ipad_controller", LIVING_LIGHT_COMMAND, payload(), 1)
        .unwrap();

    let inbox = broker.reconnect_client("ipad_controller");

    assert_eq!(inbox.len(), 1);
}

#[test]
fn command_topics_map_to_device_ids_and_state_topics() {
    assert_eq!(
        device_id_from_command_topic(LIVING_LIGHT_COMMAND),
        Some("living_light".to_string())
    );
    assert_eq!(
        state_topic_for_command_topic(LIVING_LIGHT_COMMAND),
        Some(LIVING_LIGHT_STATE.to_string())
    );
    assert_eq!(state_topic_for_command_topic("house/device/x/status"), None);
}

#[test]
fn zero_deliveries_count_as_one() {
    let mut broker = BrokerModel::new(true, false);
    let outcome = broker
        .publish_device_command("mqtt.local", "client", LIVING_LIGHT_COMMAND, payload(), 0)
        .unwrap();
    assert_eq!(outcome.deliveries, 1);
}

#[test]
fn matched_publish_rejects_device_ids_with_slashes() {
    let mut broker = BrokerModel::new(true, false);
    let error = broker
        .publish_device_command_with_topics(DeviceCommandPublish {
            broker: "mqtt.local",
            client: "client",
            command_topic: "a/b/command",
            device_id: "a/b",
            state_topic: "a/b/state",
            payload: payload(),
            deliveries: 1,
        })
        .unwrap_err();
    assert_eq!(error, MqttError::InvalidCommandTopic("a/b/command".to_string()));
    assert_eq!(error.message(), "topic is not a device command topic: a/b/command");
}

#[test]
fn unknown_broker_is_offline() {
    let broker = BrokerModel::new(true, true);
    assert!(!broker.is_online("mqtt.edge"));
    assert!(broker.is_online("mqtt.cloud"));
}

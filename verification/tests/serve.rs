use roomci::serve::{
    decode_mqtt_remaining_length, encode_mqtt_remaining_length, escape_json_string,
    is_loopback_host, json_to_u16, modbus_exception_response, modbus_success_response,
    modbus_tcp_response, mqtt_connack, mqtt_publish_response_packet, mqtt_suback_packet,
    mqtt_topic_matches_filter, parse_modbus_header, parse_mqtt_publish_frame,
    parse_mqtt_subscribe, raw_response, sanitize_external_key, sanitize_external_message_value,
    validate_mqtt_connect, ServeError, MQTT_CONNACK_UNACCEPTABLE_PROTOCOL,
};
use roomci::value::Value;

fn mqtt_connect_packet_with(protocol_name: &str, protocol_level: u8, client_id: &str) -> Vec<u8> {
    let mut variable = Vec::new();
    variable.extend_from_slice(&(protocol_name.len() as u16).to_be_bytes());
    variable.extend_from_slice(protocol_name.as_bytes());
    variable.push(protocol_level);
    variable.push(0x02);
    variable.extend_from_slice(&60_u16.to_be_bytes());
    variable.extend_from_slice(&(client_id.len() as u16).to_be_bytes());
    variable.extend_from_slice(client_id.as_bytes());

    let mut packet = vec![0x10];
    encode_mqtt_remaining_length(variable.len(), &mut packet);
    packet.extend(variable);
    packet
}

/// The CONNACK the runtime answers a full CONNECT packet with.
fn mqtt_connack_for(connect_packet: Vec<u8>) -> [u8; 4] {
    assert_eq!(connect_packet[0] >> 4, 1);
    let (length, used) = decode_mqtt_remaining_length(&connect_packet[1..]).unwrap();
    let payload = &connect_packet[1 + used..1 + used + length];
    let connack = mqtt_connack(payload);
    [connack[0], connack[1], connack[2], connack[3]]
}

fn mqtt_subscribe_payload(packet_id: u16, topic_filter: &str, qos: u8) -> Vec<u8> {
    let mut payload = Vec::new();
    payload.extend_from_slice(&packet_id.to_be_bytes());
    payload.extend_from_slice(&(topic_filter.len() as u16).to_be_bytes());
    payload.extend_from_slice(topic_filter.as_bytes());
    payload.push(qos);
    payload
}

#[test]
fn mqtt_connect_with_legacy_protocol_name_is_rejected() {
    let connack = mqtt_connack_for(mqtt_connect_packet_with("MQIsdp", 3, "legacy"));

    assert_eq!(connack, [0x20, 0x02, 0x00, MQTT_CONNACK_UNACCEPTABLE_PROTOCOL]);
}

#[test]
fn mqtt_connect_with_unsupported_level_is_rejected() {
    let connack = mqtt_connack_for(mqtt_connect_packet_with("MQTT", 5, "mqtt5"));

    assert_eq!(connack, [0x20, 0x02, 0x00, MQTT_CONNACK_UNACCEPTABLE_PROTOCOL]);
}

#[test]
fn mqtt_connect_for_3_1_1_is_accepted() {
    let connack = mqtt_connack_for(mqtt_connect_packet_with("MQTT", 4, "unit-test"));
    assert_eq!(connack, [0x20, 0x02, 0x00, 0x00]);
    assert!(!validate_mqtt_connect(&[0x00]));
    assert!(!validate_mqtt_connect(&[0x00, 0x04, b'M', b'Q', b'T', b'T']));
}

#[test]
fn raw_response_renders_service_unavailable() {
    let response = raw_response(503, "application/json", r#"{"error":"x"}"#);

    assert!(response.starts_with("HTTP/1.1 503 Service Unavailable"));
}

#[test]
fn raw_response_counts_body_bytes() {
    assert_eq!(
        raw_response(200, "text/plain", "é"),
        "HTTP/1.1 200 OK\r\nContent-Type: text/plain\r\nContent-Length: 2\r\nConnection: close\r\n\r\né"
    );
    assert!(raw_response(418, "text/plain", "").starts_with("HTTP/1.1 418 OK\r\n"));
}

#[test]
fn loopback_host_policy_is_local_by_default() {
    assert!(is_loopback_host("127.0.0.1"));
    assert!(is_loopback_host("localhost"));
    assert!(is_loopback_host("::1"));
    assert!(!is_loopback_host("0.0.0.0"));
}

#[test]
fn external_text_is_sanitized() {
    assert_eq!(sanitize_external_key("bms/zone 1:ok!"), "bms/zone_1:ok_");
    assert_eq!(sanitize_external_key(""), "unknown");
    assert_eq!(sanitize_external_message_value("a\nb\tc"), "a b c");
    assert_eq!(escape_json_string("say \"hi\" \\ bye"), "say \\\"hi\\\" \\\\ bye");
}

#[test]
fn remaining_length_round_trips() {
    for n in [0usize, 127, 128, 16_383, 16_384, 2_097_151, 2_097_152, 268_435_455] {
        let mut packet = Vec::new();
        encode_mqtt_remaining_length(n, &mut packet);
        assert_eq!(decode_mqtt_remaining_length(&packet), Some((n, packet.len())));
    }
    let mut packet = Vec::new();
    encode_mqtt_remaining_length(321, &mut packet);
    assert_eq!(packet, vec![0xC1, 0x02]);
    assert_eq!(decode_mqtt_remaining_length(&[0x80, 0x80, 0x80, 0x80, 0x01]), None);
}

#[test]
fn qos_above_zero_subscription_gets_an_empty_filter() {
    let subscribe =
        parse_mqtt_subscribe(&mqtt_subscribe_payload(9, "fleet/demo/site/lab/device/env_sensor_01/state", 1))
            .unwrap();

    assert_eq!(subscribe.packet_id, 9);
    assert_eq!(subscribe.filters, vec![String::new()]);
}

#[test]
fn mqtt_subscribe_parser_reports_malformed_inputs() {
    assert_eq!(
        parse_mqtt_subscribe(&[0, 1, 0]).unwrap_err(),
        ServeError::Runtime("malformed MQTT subscribe".to_string())
    );
    assert_eq!(
        parse_mqtt_subscribe(&mqtt_subscribe_payload(0, "a", 0)).unwrap_err(),
        ServeError::Runtime("malformed MQTT subscribe packet id".to_string())
    );
    assert_eq!(
        parse_mqtt_subscribe(&[0, 1, 0, 9, b'a']).unwrap_err(),
        ServeError::Runtime("malformed MQTT subscribe topic".to_string())
    );
    let subscribe = parse_mqtt_subscribe(&mqtt_subscribe_payload(3, "a/+/state", 0)).unwrap();
    assert_eq!(subscribe.filters, vec!["a/+/state".to_string()]);
}

#[test]
fn mqtt_packet_parser_reports_malformed_inputs() {
    assert!(parse_mqtt_publish_frame(&[]).is_err());
    assert!(parse_mqtt_publish_frame(&[0x00, 0x10, b'a']).is_err());
    let mut payload = Vec::new();
    payload.extend_from_slice(&[0x00, 0x03]);
    payload.extend_from_slice(b"a/b");
    payload.extend_from_slice(b"not-json");
    let frame = parse_mqtt_publish_frame(&payload).unwrap();
    assert_eq!(frame.topic, "a/b");
    assert_eq!(frame.payload, b"not-json".to_vec());
}

#[test]
fn topic_filters_match_level_by_level() {
    assert!(mqtt_topic_matches_filter("a/+/state", "a/lamp/state"));
    assert!(!mqtt_topic_matches_filter("a/+/state", "a/lamp/x/state"));
    assert!(!mqtt_topic_matches_filter("a/b", "a/c"));
}

#[test]
fn suback_and_publish_frames() {
    assert_eq!(mqtt_suback_packet(7, &[0x00, 0x80]), vec![0x90, 0x04, 0x00, 0x07, 0x00, 0x80]);
    assert_eq!(
        mqtt_publish_response_packet("a/b", b"{}"),
        vec![0x31, 0x07, 0x00, 0x03, b'a', b'/', b'b', b'{', b'}']
    );
}

#[test]
fn modbus_frames_carry_the_mbap_header() {
    assert_eq!(
        modbus_success_response(7, 1, 0x03, &[0x02, 0x00, 0xF5]),
        vec![0x00, 0x07, 0x00, 0x00, 0x00, 0x05, 0x01, 0x03, 0x02, 0x00, 0xF5]
    );
    assert_eq!(
        modbus_exception_response(9, 2, 0x03, 0x02),
        vec![0x00, 0x09, 0x00, 0x00, 0x00, 0x03, 0x02, 0x83, 0x02]
    );
    assert_eq!(modbus_tcp_response(1, 1, &[]), vec![0, 1, 0, 0, 0, 1, 1]);
    let header = parse_modbus_header(&[0x00, 0x07, 0x00, 0x00, 0x00, 0x06, 0x01]).unwrap();
    assert_eq!((header.transaction_id, header.unit_id, header.pdu_len), (7, 1, 5));
    assert_eq!(
        parse_modbus_header(&[0, 1, 0, 1, 0, 6, 1]).unwrap_err(),
        ServeError::Runtime("invalid Modbus protocol id".to_string())
    );
    assert_eq!(
        parse_modbus_header(&[0, 1, 0, 0, 0, 0, 1]).unwrap_err(),
        ServeError::Runtime("invalid Modbus TCP length".to_string())
    );
}

#[test]
fn register_values_become_words() {
    assert_eq!(json_to_u16(&Value::UInt(245)), Some(245));
    assert_eq!(json_to_u16(&Value::Int(-1)), None);
    assert_eq!(json_to_u16(&Value::Bool(true)), Some(1));
    assert_eq!(json_to_u16(&Value::Int(70_000)), None);
}

use roomci::modbus::ModbusModel;
use roomci::modbus_tcp::{
    apply_modbus_tcp_request, apply_scenario_modbus_steps, modbus_unit_map,
    normalize_modbus_register, ModbusTcpRequest, ModbusWriteStep, MODBUS_EXCEPTION_ILLEGAL_ADDRESS,
    MODBUS_EXCEPTION_ILLEGAL_FUNCTION, MODBUS_EXCEPTION_ILLEGAL_VALUE,
};
use roomci::serve::{modbus_tcp_response, parse_modbus_header};
use roomci::strmap::StrMap;
use roomci::value::Value;

fn text(s: &str) -> Value {
    Value::Str(s.to_string())
}

fn entry(key: &str, value: Value) -> (Value, Value) {
    (text(key), value)
}

fn register(value: i64) -> Value {
    Value::Mapping(vec![entry("type", text("decimal_0_1")), entry("value", Value::Int(value))])
}

/// The floor-heating device of the Modbus example scenario: unit 1 with two
/// holding registers (24.5 and 21.0 degrees) and two input registers.
fn floor_heating_config() -> StrMap<Value> {
    let device = Value::Mapping(vec![
        entry("id", text("floor_heating_01")),
        entry("unit_id", Value::Int(1)),
        entry(
            "holding_registers",
            Value::Mapping(vec![(Value::Int(40001), register(245)), (Value::Int(40002), register(210))]),
        ),
        entry(
            "input_registers",
            Value::Mapping(vec![(Value::Int(30001), register(228)), (Value::Int(30002), register(221))]),
        ),
    ]);
    let mut config = StrMap::new();
    config.insert("devices".to_string(), Value::List(vec![device]));
    config
}

fn serve_model() -> (ModbusModel, Vec<(u8, String)>) {
    let config = floor_heating_config();
    let model = ModbusModel::try_from_config(&config).unwrap();
    let units = modbus_unit_map(&config);
    (model, units)
}

fn modbus_request(transaction: u16, unit: u8, function: u8, payload: &[u8]) -> Vec<u8> {
    let mut request = Vec::with_capacity(8 + payload.len());
    request.extend_from_slice(&transaction.to_be_bytes());
    request.extend_from_slice(&0_u16.to_be_bytes());
    request.extend_from_slice(&((payload.len() + 2) as u16).to_be_bytes());
    request.push(unit);
    request.push(function);
    request.extend_from_slice(payload);
    request
}

fn modbus_response(transaction: u16, unit: u8, function: u8, payload: &[u8]) -> Vec<u8> {
    modbus_tcp_response(transaction, unit, &[&[function], payload].concat())
}

fn modbus_exception_for_test(transaction: u16, unit: u8, function: u8, exception: u8) -> Vec<u8> {
    modbus_tcp_response(transaction, unit, &[function | 0x80, exception])
}

fn parse_modbus_request_for_test(bytes: &[u8]) -> ModbusTcpRequest {
    let transaction_id = u16::from_be_bytes([bytes[0], bytes[1]]);
    let unit_id = bytes[6];
    let function = bytes[7];
    ModbusTcpRequest { transaction_id, unit_id, function, payload: bytes[8..].to_vec() }
}

fn answer(model: &mut ModbusModel, units: &Vec<(u8, String)>, bytes: &[u8]) -> Vec<u8> {
    let request = parse_modbus_request_for_test(bytes);
    apply_modbus_tcp_request(model, units, &request).response
}

#[test]
fn modbus_tcp_server_handles_standard_mbap_request() {
    let (mut model, units) = serve_model();
    let request = modbus_request(7, 1, 0x03, &[0x00, 0x00, 0x00, 0x01]);

    let header = parse_modbus_header(&request[..7]).unwrap();
    assert_eq!(header.pdu_len, request.len() - 7);
    let pdu = &request[7..];
    let response = apply_modbus_tcp_request(
        &mut model,
        &units,
        &ModbusTcpRequest {
            transaction_id: header.transaction_id,
            unit_id: header.unit_id,
            function: pdu[0],
            payload: pdu[1..].to_vec(),
        },
    )
    .response;

    assert_eq!(response, modbus_response(7, 1, 0x03, &[0x02, 0x00, 0xF5]));
}

#[test]
fn modbus_tcp_reads_and_writes_register_subset() {
    let (mut model, units) = serve_model();
    let read_holding = modbus_request(1, 1, 0x03, &[0x00, 0x00, 0x00, 0x01]);
    let request = parse_modbus_request_for_test(&read_holding);
    let reply = apply_modbus_tcp_request(&mut model, &units, &request);
    assert_eq!(reply.response, modbus_response(1, 1, 0x03, &[0x02, 0x00, 0xF5]));
    assert_eq!(reply.touched, vec![40001]);

    let write = modbus_request(2, 1, 0x06, &[0x00, 0x00, 0x00, 0xFA]);
    let request = parse_modbus_request_for_test(&write);
    let reply = apply_modbus_tcp_request(&mut model, &units, &request);
    assert_eq!(reply.response, modbus_response(2, 1, 0x06, &[0x00, 0x00, 0x00, 0xFA]));
    assert_eq!(reply.touched, vec![40001]);
    assert_eq!(model.value("floor_heating_01", 40001), Some(&Value::Int(250)));
}

#[test]
fn modbus_tcp_reads_contiguous_registers() {
    let (mut model, units) = serve_model();
    let read_holding = modbus_request(1, 1, 0x03, &[0x00, 0x00, 0x00, 0x02]);
    assert_eq!(
        answer(&mut model, &units, &read_holding),
        modbus_response(1, 1, 0x03, &[0x04, 0x00, 0xF5, 0x00, 0xD2])
    );

    let read_input = modbus_request(2, 1, 0x04, &[0x00, 0x00, 0x00, 0x02]);
    assert_eq!(
        answer(&mut model, &units, &read_input),
        modbus_response(2, 1, 0x04, &[0x04, 0x00, 0xE4, 0x00, 0xDD])
    );
}

#[test]
fn modbus_tcp_returns_exceptions_for_unsupported_and_invalid_requests() {
    let (mut model, units) = serve_model();
    let unsupported = modbus_request(1, 1, 0x10, &[0x00, 0x00]);
    assert_eq!(
        answer(&mut model, &units, &unsupported),
        modbus_exception_for_test(1, 1, 0x10, MODBUS_EXCEPTION_ILLEGAL_FUNCTION)
    );

    let read_missing = modbus_request(2, 1, 0x03, &[0x00, 0x63, 0x00, 0x01]);
    assert_eq!(
        answer(&mut model, &units, &read_missing),
        modbus_exception_for_test(2, 1, 0x03, MODBUS_EXCEPTION_ILLEGAL_ADDRESS)
    );

    let read_gap = modbus_request(4, 1, 0x03, &[0x00, 0x01, 0x00, 0x02]);
    assert_eq!(
        answer(&mut model, &units, &read_gap),
        modbus_exception_for_test(4, 1, 0x03, MODBUS_EXCEPTION_ILLEGAL_ADDRESS)
    );

    let read_zero = modbus_request(5, 1, 0x03, &[0x00, 0x00, 0x00, 0x00]);
    assert_eq!(
        answer(&mut model, &units, &read_zero),
        modbus_exception_for_test(5, 1, 0x03, MODBUS_EXCEPTION_ILLEGAL_VALUE)
    );

    let write_read_only = modbus_request(3, 1, 0x06, &[0x75, 0x31, 0x00, 0xE5]);
    assert_eq!(
        answer(&mut model, &units, &write_read_only),
        modbus_exception_for_test(3, 1, 0x06, MODBUS_EXCEPTION_ILLEGAL_VALUE)
    );
}

#[test]
fn modbus_request_handler_returns_protocol_responses_for_bounded_payload_shapes() {
    for function in [0x03, 0x04, 0x06, 0x10] {
        for len in 0..8 {
            let payload = (0..len).map(|index| (index * 29 % 251) as u8).collect::<Vec<_>>();
            let (mut model, units) = serve_model();
            let request = ModbusTcpRequest { transaction_id: len as u16, unit_id: 1, function, payload };

            let response = apply_modbus_tcp_request(&mut model, &units, &request).response;

            assert!(
                response.len() >= 9,
                "Modbus response should include MBAP and PDU for function {function:#04x} len {len}"
            );
        }
    }
}

#[test]
fn unknown_unit_gets_illegal_address() {
    let (mut model, units) = serve_model();
    let request = modbus_request(9, 5, 0x03, &[0x00, 0x00, 0x00, 0x01]);
    assert_eq!(
        answer(&mut model, &units, &request),
        modbus_exception_for_test(9, 5, 0x03, MODBUS_EXCEPTION_ILLEGAL_ADDRESS)
    );
}

#[test]
fn units_default_to_their_position_and_register_numbers_normalize() {
    let mut config = StrMap::new();
    config.insert(
        "devices".to_string(),
        Value::List(vec![
            Value::Mapping(vec![entry("id", text("a"))]),
            Value::Mapping(vec![entry("id", text("b")), entry("unit_id", Value::Int(7))]),
            Value::Mapping(vec![entry("id", text("c"))]),
            text("skipped"),
        ]),
    );
    assert_eq!(
        modbus_unit_map(&config),
        vec![(1, "a".to_string()), (7, "b".to_string()), (3, "c".to_string())]
    );

    let (model, _) = serve_model();
    assert_eq!(normalize_modbus_register(&model, "floor_heating_01", 0x03, 1), 40002);
    assert_eq!(normalize_modbus_register(&model, "floor_heating_01", 0x04, 0), 30001);
    assert_eq!(normalize_modbus_register(&model, "floor_heating_01", 0x03, 40001), 40001);
    assert_eq!(normalize_modbus_register(&model, "floor_heating_01", 0x03, 9), 9);
}

#[test]
fn scenario_writes_apply_in_order_and_skip_refused_ones() {
    let (mut model, _) = serve_model();
    let writes = vec![
        ModbusWriteStep { device: "floor_heating_01".to_string(), register: 40001, value: Value::Int(230) },
        ModbusWriteStep { device: "floor_heating_01".to_string(), register: 30001, value: Value::Int(1) },
        ModbusWriteStep { device: "floor_heating_01".to_string(), register: 40001, value: Value::Int(231) },
    ];
    apply_scenario_modbus_steps(&writes, &mut model);
    assert_eq!(model.value("floor_heating_01", 40001), Some(&Value::Int(231)));
    assert_eq!(model.value("floor_heating_01", 30001), Some(&Value::Int(228)));
}

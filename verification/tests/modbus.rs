use roomci::device::DeviceModelError;
use roomci::json::{to_json, to_json_or_null, yaml_map_to_json};
use roomci::modbus::{ModbusModel, ModbusRegisterAccess};
use roomci::strmap::StrMap;
use roomci::value::Value;

fn text(s: &str) -> Value {
    Value::Str(s.to_string())
}

fn entry(key: &str, value: Value) -> (Value, Value) {
    (text(key), value)
}

fn register(value: Value, value_type: Option<&str>) -> Value {
    let mut entries = Vec::new();
    if let Some(t) = value_type {
        entries.push(entry("type", text(t)));
    }
    entries.push(entry("value", value));
    Value::Mapping(entries)
}

fn modbus_config(devices: Vec<Value>) -> StrMap<Value> {
    let mut config = StrMap::new();
    config.insert("devices".to_string(), Value::List(devices));
    config
}

fn floor_heating(section: &str, address: i64, value: i64) -> StrMap<Value> {
    modbus_config(vec![Value::Mapping(vec![
        entry("id", text("floor_heating")),
        entry(
            section,
            Value::Mapping(vec![(
                Value::Int(address),
                register(Value::Int(value), Some("decimal_0_1")),
            )]),
        ),
    ])])
}

#[test]
fn modbus_rejects_writes_to_read_only_registers() {
    let mut model = ModbusModel::try_from_config(&floor_heating("input_registers", 30001, 228)).unwrap();

    assert_eq!(
        model.write("floor_heating", 30001, Value::Int(230)),
        Err(DeviceModelError::ReadOnlyModbusRegister {
            device: "floor_heating".to_string(),
            register: 30001
        })
    );
}

#[test]
fn modbus_value_returns_none_for_unknown_device() {
    let model = ModbusModel::default();

    assert_eq!(model.value("unknown_device", 40001), None);
    assert!(!model.has_register("unknown_device", 40001));
}

#[test]
fn modbus_write_fails_for_unknown_device() {
    let mut model = ModbusModel::default();

    let error = model.write("unknown_device", 40001, Value::Int(1)).unwrap_err();

    assert_eq!(error, DeviceModelError::UnknownModbusDevice("unknown_device".to_string()));
}

#[test]
fn modbus_holding_register_write_stores_the_json_value() {
    let mut model =
        ModbusModel::try_from_config(&floor_heating("holding_registers", 40001, 245)).unwrap();

    assert_eq!(model.value("floor_heating", 40001), Some(&Value::Int(245)));
    assert_eq!(model.write("floor_heating", 40001, Value::Int(230)), Ok(Value::Int(230)));
    assert_eq!(model.value("floor_heating", 40001), Some(&Value::Int(230)));
    let reg = model.register("floor_heating", 40001).unwrap();
    assert_eq!(reg.value_type, Some("decimal_0_1".to_string()));
    assert_eq!(reg.access, ModbusRegisterAccess::ReadWrite);
}

#[test]
fn modbus_unknown_register_is_reported_with_its_address() {
    let mut model =
        ModbusModel::try_from_config(&floor_heating("holding_registers", 40001, 245)).unwrap();

    assert_eq!(
        model.write("floor_heating", 40002, Value::Int(1)),
        Err(DeviceModelError::UnknownModbusRegister {
            device: "floor_heating".to_string(),
            register: 40002
        })
    );
    assert_eq!(
        model.assert_writable("floor_heating", 40002).unwrap_err().message(),
        "unknown Modbus register floor_heating:40002"
    );
}

#[test]
fn modbus_text_addresses_parse_as_u32() {
    let config = modbus_config(vec![Value::Mapping(vec![
        entry("id", text("meter")),
        entry(
            "coils",
            Value::Mapping(vec![(text("+17"), register(Value::Bool(true), None))]),
        ),
    ])]);
    let model = ModbusModel::try_from_config(&config).unwrap();

    assert!(model.has_register("meter", 17));
    assert_eq!(model.value("meter", 17), Some(&Value::Bool(true)));
}

#[test]
fn modbus_config_errors_name_the_first_problem() {
    let not_a_map = modbus_config(vec![text("meter")]);
    assert_eq!(
        ModbusModel::try_from_config(&not_a_map).unwrap_err(),
        DeviceModelError::InvalidModbusConfig("devices[] entries must be YAML maps".to_string())
    );

    let no_id = modbus_config(vec![Value::Mapping(vec![entry("id", Value::Int(3))])]);
    assert_eq!(
        ModbusModel::try_from_config(&no_id).unwrap_err(),
        DeviceModelError::InvalidModbusConfig("devices[].id must be a string".to_string())
    );

    let bad_address = modbus_config(vec![Value::Mapping(vec![
        entry("id", text("meter")),
        entry(
            "holding_registers",
            Value::Mapping(vec![(Value::Int(4294967296), register(Value::Int(1), None))]),
        ),
    ])]);
    assert_eq!(
        ModbusModel::try_from_config(&bad_address).unwrap_err(),
        DeviceModelError::InvalidModbusConfig(
            "register address in meter.holding_registers must be u32".to_string()
        )
    );

    let no_value = modbus_config(vec![Value::Mapping(vec![
        entry("id", text("meter")),
        entry(
            "input_registers",
            Value::Mapping(vec![(Value::Int(30001), Value::Mapping(vec![entry("type", text("u16"))]))]),
        ),
    ])]);
    assert_eq!(
        ModbusModel::try_from_config(&no_value).unwrap_err(),
        DeviceModelError::InvalidModbusConfig("register meter:30001 must declare value".to_string())
    );

    let not_a_definition = modbus_config(vec![Value::Mapping(vec![
        entry("id", text("meter")),
        entry("discrete_inputs", Value::Mapping(vec![(Value::Int(7), Value::Int(1))])),
    ])]);
    assert_eq!(
        ModbusModel::try_from_config(&not_a_definition).unwrap_err(),
        DeviceModelError::InvalidModbusConfig(
            "register meter:7 definition must be a YAML map".to_string()
        )
    );
}

#[test]
fn modbus_without_devices_list_is_empty() {
    let model = ModbusModel::try_from_config(&StrMap::new()).unwrap();
    assert!(!model.has_register("meter", 1));
    let fallback = ModbusModel::from_config(&modbus_config(vec![text("broken")]));
    assert!(!fallback.has_register("meter", 1));
}

#[test]
fn json_objects_spell_out_keys_sort_them_and_keep_the_last_member() {
    let yaml = Value::Mapping(vec![
        (Value::Int(2), text("two")),
        (Value::Bool(true), text("yes")),
        (text("a"), Value::Int(1)),
        (text("a"), Value::Int(9)),
    ]);

    assert_eq!(
        to_json(&yaml),
        Some(Value::Mapping(vec![
            (text("2"), text("two")),
            (text("a"), Value::Int(9)),
            (text("true"), text("yes")),
        ]))
    );
}

#[test]
fn json_refuses_keys_that_are_not_scalars_and_drops_non_finite_floats() {
    let nested_key = Value::Mapping(vec![(Value::List(vec![]), Value::Null)]);
    assert_eq!(to_json(&nested_key), None);
    assert_eq!(to_json_or_null(&nested_key), Value::Null);

    let nan = Value::Float(f64::NAN.to_bits());
    let half = Value::Float(0.5f64.to_bits());
    assert_eq!(
        to_json(&Value::List(vec![nan, half])),
        Some(Value::List(vec![Value::Null, Value::Float(0.5f64.to_bits())]))
    );
}

#[test]
fn yaml_map_to_json_converts_each_value() {
    let mut map = StrMap::new();
    map.insert("state".to_string(), Value::Mapping(vec![(Value::Int(1), text("on"))]));
    map.insert("bad".to_string(), Value::Mapping(vec![(Value::Null, text("x"))]));

    let json = yaml_map_to_json(&map);

    assert_eq!(json.get("state"), Some(&Value::Mapping(vec![(text("1"), text("on"))])));
    assert_eq!(json.get("bad"), Some(&Value::Null));
    assert_eq!(json.len(), 2);
}

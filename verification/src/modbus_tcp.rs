//! Modbus TCP requests against the Modbus device model: reading holding or
//! input registers (functions 3 and 4) and writing a single register
//! (function 6), with the standard exception responses.

use vstd::prelude::*;

use crate::device::DeviceModelError;
use crate::modbus::{ModbusModel, ModbusRegisterAccess, RegisterView};
use crate::serve::{
    be16, be16_bytes, json_to_u16, modbus_exception_response, modbus_frame, modbus_success_response,
    register_word,
};
use crate::text::str_eq;
use crate::strmap::{value_views, StrMap};
use crate::value::{
    lemma_view_list, mapping_get, view_i64, view_list, view_lookup, Value, ValueView,
};

verus! {

/// The function code is not supported.
pub const MODBUS_EXCEPTION_ILLEGAL_FUNCTION: u8 = 1u8;

/// The unit or a register is unknown.
pub const MODBUS_EXCEPTION_ILLEGAL_ADDRESS: u8 = 2u8;

/// The request is malformed or the register cannot take the value.
pub const MODBUS_EXCEPTION_ILLEGAL_VALUE: u8 = 3u8;

/// A decoded Modbus TCP request: MBAP transaction and unit ids, the
/// function code and the rest of the PDU.
pub struct ModbusTcpRequest {
    pub transaction_id: u16,
    pub unit_id: u8,
    pub function: u8,
    pub payload: Vec<u8>,
}

/// The response to a request and the registers it read or wrote, in order.
pub struct ModbusReply {
    pub response: Vec<u8>,
    pub touched: Vec<u32>,
}

pub type ModbusView = Map<Seq<char>, Map<u32, RegisterView>>;

/// The device served under a unit id: the first entry for it.
pub open spec fn unit_device(units: Seq<(u8, String)>, unit: u8) -> Option<Seq<char>>
    decreases units.len(),
{
    if units.len() == 0 {
        None
    } else if units[0].0 == unit {
        Some(units[0].1@)
    } else {
        unit_device(units.drop_first(), unit)
    }
}

pub open spec fn has_reg(m: ModbusView, d: Seq<char>, a: int) -> bool {
    0 <= a <= u32::MAX && m.contains_key(d) && m[d].contains_key(a as u32)
}

/// The register an address names: the address itself when the device has
/// it, else its conventional number (30001 + address for input registers,
/// 40001 + address otherwise) when the device has that, else the address.
pub open spec fn normalized_register(m: ModbusView, d: Seq<char>, function: u8, address: u32) -> u32 {
    let conventional = if function == 4 {
        30001 + address
    } else {
        40001 + address
    };
    if has_reg(m, d, address as int) {
        address
    } else if has_reg(m, d, conventional) {
        conventional as u32
    } else {
        address
    }
}

/// The 16-bit word a register holds.
pub open spec fn word_at(m: ModbusView, d: Seq<char>, r: int) -> Option<u16> {
    if has_reg(m, d, r) {
        register_word(m[d][r as u32].value)
    } else {
        None
    }
}

pub open spec fn words_bytes(ws: Seq<u16>) -> Seq<u8>
    decreases ws.len(),
{
    if ws.len() == 0 {
        Seq::empty()
    } else {
        words_bytes(ws.drop_last()) + be16_bytes(ws.last())
    }
}

pub open spec fn exception_frame(req: ModbusTcpRequest, code: u8) -> Seq<u8> {
    modbus_frame(req.transaction_id, req.unit_id, seq![req.function | 0x80u8, code])
}

pub open spec fn success_frame(req: ModbusTcpRequest, payload: Seq<u8>) -> Seq<u8> {
    modbus_frame(req.transaction_id, req.unit_id, seq![req.function] + payload)
}

/// The response to a read request and the registers it read.
pub open spec fn read_outcome(m: ModbusView, units: Seq<(u8, String)>, req: ModbusTcpRequest) -> (
    Seq<u8>,
    Seq<u32>,
) {
    let p = req.payload@;
    let none = Seq::<u32>::empty();
    if p.len() != 4 {
        (exception_frame(req, MODBUS_EXCEPTION_ILLEGAL_VALUE), none)
    } else {
        let a = be16(p[0], p[1]);
        let q = be16(p[2], p[3]);
        if q == 0 || q > 125 {
            (exception_frame(req, MODBUS_EXCEPTION_ILLEGAL_VALUE), none)
        } else {
            match unit_device(units, req.unit_id) {
                None => (exception_frame(req, MODBUS_EXCEPTION_ILLEGAL_ADDRESS), none),
                Some(d) => {
                    let first = normalized_register(m, d, req.function, a as u32) as int;
                    if forall|k: int| 0 <= k < q ==> #[trigger] word_at(m, d, first + k) is Some {
                        let words = Seq::new(q as nat, |k: int| word_at(m, d, first + k)->Some_0);
                        (
                            success_frame(req, seq![(2 * q) as u8] + words_bytes(words)),
                            Seq::new(q as nat, |k: int| (first + k) as u32),
                        )
                    } else {
                        (exception_frame(req, MODBUS_EXCEPTION_ILLEGAL_ADDRESS), none)
                    }
                },
            }
        }
    }
}

/// The response to a write request, the register it wrote and the model
/// after it.
pub open spec fn write_outcome(m: ModbusView, units: Seq<(u8, String)>, req: ModbusTcpRequest) -> (
    Seq<u8>,
    Seq<u32>,
    ModbusView,
) {
    let p = req.payload@;
    let none = Seq::<u32>::empty();
    if p.len() != 4 {
        (exception_frame(req, MODBUS_EXCEPTION_ILLEGAL_VALUE), none, m)
    } else {
        match unit_device(units, req.unit_id) {
            None => (exception_frame(req, MODBUS_EXCEPTION_ILLEGAL_ADDRESS), none, m),
            Some(d) => {
                let r = normalized_register(m, d, req.function, be16(p[0], p[1]) as u32);
                if has_reg(m, d, r as int) && m[d][r].access == ModbusRegisterAccess::ReadWrite {
                    (
                        success_frame(req, p),
                        seq![r],
                        m.insert(
                            d,
                            m[d].insert(
                                r,
                                RegisterView {
                                    value: ValueView::Int(be16(p[2], p[3])),
                                    value_type: m[d][r].value_type,
                                    access: ModbusRegisterAccess::ReadWrite,
                                },
                            ),
                        ),
                    )
                } else if has_reg(m, d, r as int) {
                    (exception_frame(req, MODBUS_EXCEPTION_ILLEGAL_VALUE), none, m)
                } else {
                    (exception_frame(req, MODBUS_EXCEPTION_ILLEGAL_ADDRESS), none, m)
                }
            },
        }
    }
}

/// The response to a request, the registers it touched and the model after
/// it: functions 3 and 4 read, 6 writes, others are refused.
pub open spec fn request_outcome(m: ModbusView, units: Seq<(u8, String)>, req: ModbusTcpRequest) -> (
    Seq<u8>,
    Seq<u32>,
    ModbusView,
) {
    if req.function == 3 || req.function == 4 {
        let (r, t) = read_outcome(m, units, req);
        (r, t, m)
    } else if req.function == 6 {
        write_outcome(m, units, req)
    } else {
        (exception_frame(req, MODBUS_EXCEPTION_ILLEGAL_FUNCTION), Seq::empty(), m)
    }
}

fn unit_device_of(units: &Vec<(u8, String)>, unit: u8) -> (r: Option<&String>)
    ensures
        match r {
            Some(d) => unit_device(units@, unit) == Some(d@),
            None => unit_device(units@, unit) is None,
        },
{
    let mut i: usize = 0;
    assert(units@.skip(0) =~= units@);
    while i < units.len()
        invariant
            i <= units.len(),
            unit_device(units@, unit) == unit_device(units@.skip(i as int), unit),
        decreases units.len() - i,
    {
        assert(units@.skip(i as int)[0] == units@[i as int]);
        assert(units@.skip(i as int).drop_first() =~= units@.skip(i + 1));
        if units[i].0 == unit {
            return Some(&units[i].1);
        }
        i = i + 1;
    }
    None
}

/// The register an address names on a device: the address itself when the
/// device has it, else the conventional number for the function.
pub fn normalize_modbus_register(modbus: &ModbusModel, device: &str, function: u8, address: u32) -> (r:
    u32)
    ensures
        r == normalized_register(modbus@, device@, function, address),
{
    if modbus.has_register(device, address) {
        return address;
    }
    let conventional = if function == 4 {
        address.checked_add(30001)
    } else {
        address.checked_add(40001)
    };
    match conventional {
        Some(c) => if modbus.has_register(device, c) {
            c
        } else {
            address
        },
        None => address,
    }
}

fn exception_reply(request: &ModbusTcpRequest, code: u8) -> (r: ModbusReply)
    ensures
        r.response@ == exception_frame(*request, code),
        r.touched@ == Seq::<u32>::empty(),
{
    ModbusReply {
        response: modbus_exception_response(
            request.transaction_id,
            request.unit_id,
            request.function,
            code,
        ),
        touched: Vec::new(),
    }
}

/// Reads `quantity` registers from the one an address names.
#[verifier::loop_isolation(false)]
fn apply_modbus_read(modbus: &ModbusModel, units: &Vec<(u8, String)>, request: &ModbusTcpRequest) -> (r:
    ModbusReply)
    ensures
        (r.response@, r.touched@) == read_outcome(modbus@, units@, *request),
{
    let p = &request.payload;
    if p.len() != 4 {
        return exception_reply(request, MODBUS_EXCEPTION_ILLEGAL_VALUE);
    }
    let address = (p[0] as u32) * 256 + (p[1] as u32);
    let quantity = (p[2] as u32) * 256 + (p[3] as u32);
    if quantity == 0 || quantity > 125 {
        return exception_reply(request, MODBUS_EXCEPTION_ILLEGAL_VALUE);
    }
    let device = match unit_device_of(units, request.unit_id) {
        Some(d) => d,
        None => {
            return exception_reply(request, MODBUS_EXCEPTION_ILLEGAL_ADDRESS);
        },
    };
    let ghost m = modbus@;
    let ghost d = device@;
    let first = normalize_modbus_register(modbus, device.as_str(), request.function, address);
    assert(first <= 105536);
    let mut words: Vec<u16> = Vec::new();
    let mut touched: Vec<u32> = Vec::new();
    let mut k: u32 = 0;
    while k < quantity
        invariant
            k <= quantity <= 125,
            first <= 105536,
            words@.len() == k,
            touched@.len() == k,
            forall|j: int|
                0 <= j < k ==> word_at(m, d, first + j) == Some(#[trigger] words@[j]) && touched@[j]
                    == first + j,
        decreases quantity - k,
    {
        let register = first + k;
        let word = match modbus.value(device.as_str(), register) {
            Some(v) => json_to_u16(v),
            None => None,
        };
        match word {
            Some(w) => {
                words.push(w);
                touched.push(register);
            },
            None => {
                assert(word_at(m, d, first + k as int) is None);
                return exception_reply(request, MODBUS_EXCEPTION_ILLEGAL_ADDRESS);
            },
        }
        k = k + 1;
    }
    let ghost q = quantity as int;
    assert(forall|j: int| 0 <= j < q ==> #[trigger] word_at(m, d, first + j) is Some) by {
        assert forall|j: int| 0 <= j < q implies #[trigger] word_at(m, d, first + j) is Some by {
            assert(word_at(m, d, first + j) == Some(words@[j]));
        }
    }
    let ghost expected_words = Seq::new(q as nat, |j: int| word_at(m, d, first + j)->Some_0);
    assert(words@ =~= expected_words);
    assert forall|j: int| 0 <= j < q implies touched@[j] == ((first + j) as u32) by {
        assert(word_at(m, d, first + j) == Some(words@[j]));
        assert(touched@[j] == first + j);
        assert(first + j <= u32::MAX);
    }
    assert(touched@ =~= Seq::new(q as nat, |j: int| (first + j) as u32));
    let mut payload: Vec<u8> = vec![(2 * quantity) as u8];
    let mut j: usize = 0;
    while j < words.len()
        invariant
            j <= words.len(),
            payload@ == seq![(2 * quantity) as u8] + words_bytes(words@.take(j as int)),
            payload@.len() == 1 + 2 * j,
            words@.len() <= 125,
        decreases words.len() - j,
    {
        let w = words[j];
        assert(words@.take(j + 1).drop_last() =~= words@.take(j as int));
        payload.push((w / 256) as u8);
        payload.push((w % 256) as u8);
        assert(payload@ =~= seq![(2 * quantity) as u8] + words_bytes(words@.take(j + 1)));
        j = j + 1;
    }
    assert(words@.take(words.len() as int) =~= words@);
    let response = modbus_success_response(
        request.transaction_id,
        request.unit_id,
        request.function,
        payload.as_slice(),
    );
    ModbusReply { response, touched }
}

/// Writes one register with the value of a function-6 request.
fn apply_modbus_write_single_register(
    modbus: &mut ModbusModel,
    units: &Vec<(u8, String)>,
    request: &ModbusTcpRequest,
) -> (r: ModbusReply)
    ensures
        (r.response@, r.touched@, final(modbus)@) == write_outcome(old(modbus)@, units@, *request),
{
    let p = &request.payload;
    if p.len() != 4 {
        return exception_reply(request, MODBUS_EXCEPTION_ILLEGAL_VALUE);
    }
    let address = (p[0] as u32) * 256 + (p[1] as u32);
    let value = (p[2] as i64) * 256 + (p[3] as i64);
    let device = match unit_device_of(units, request.unit_id) {
        Some(d) => d,
        None => {
            return exception_reply(request, MODBUS_EXCEPTION_ILLEGAL_ADDRESS);
        },
    };
    let register = normalize_modbus_register(modbus, device.as_str(), request.function, address);
    match modbus.write(device.as_str(), register, Value::Int(value)) {
        Ok(_) => {
            let response = modbus_success_response(
                request.transaction_id,
                request.unit_id,
                request.function,
                p.as_slice(),
            );
            ModbusReply { response, touched: vec![register] }
        },
        Err(DeviceModelError::ReadOnlyModbusRegister { .. }) => exception_reply(
            request,
            MODBUS_EXCEPTION_ILLEGAL_VALUE,
        ),
        Err(DeviceModelError::UnknownModbusDevice(_)) => exception_reply(
            request,
            MODBUS_EXCEPTION_ILLEGAL_ADDRESS,
        ),
        Err(DeviceModelError::UnknownModbusRegister { .. }) => exception_reply(
            request,
            MODBUS_EXCEPTION_ILLEGAL_ADDRESS,
        ),
        Err(_) => exception_reply(request, MODBUS_EXCEPTION_ILLEGAL_VALUE),
    }
}

/// Answers a Modbus TCP request for the devices served under `units`:
/// functions 3 and 4 read up to 125 registers, 6 writes one writable
/// register, and others get the illegal-function exception. The reply lists
/// the registers read or written.
pub fn apply_modbus_tcp_request(
    modbus: &mut ModbusModel,
    units: &Vec<(u8, String)>,
    request: &ModbusTcpRequest,
) -> (r: ModbusReply)
    ensures
        (r.response@, r.touched@, final(modbus)@) == request_outcome(old(modbus)@, units@, *request),
{
    if request.function == 3 || request.function == 4 {
        apply_modbus_read(modbus, units, request)
    } else if request.function == 6 {
        apply_modbus_write_single_register(modbus, units, request)
    } else {
        exception_reply(request, MODBUS_EXCEPTION_ILLEGAL_FUNCTION)
    }
}

// ---------------------------------------------------------------------------
// Units and scenario writes
// ---------------------------------------------------------------------------

/// The first entry for a unit id.
pub open spec fn unit_index(s: Seq<(u8, Seq<char>)>, unit: u8) -> Option<int>
    decreases s.len(),
{
    if s.len() == 0 {
        None
    } else {
        match unit_index(s.drop_last(), unit) {
            Some(i) => Some(i),
            None => if s.last().0 == unit {
                Some(s.len() - 1)
            } else {
                None
            },
        }
    }
}

/// Serves `device` under `unit`, replacing the device served there.
pub open spec fn assign_unit(s: Seq<(u8, Seq<char>)>, unit: u8, device: Seq<char>) -> Seq<(u8, Seq<char>)> {
    match unit_index(s, unit) {
        Some(i) => s.update(i, (unit, device)),
        None => s.push((unit, device)),
    }
}

/// A device's unit id: its `unit_id` when that is an integer from 0 to
/// 255, else one more than the number of units so far (at most 255).
pub open spec fn unit_of(entries: Seq<(ValueView, ValueView)>, count: nat) -> u8 {
    let fallback = if count + 1 <= 255 {
        (count + 1) as u8
    } else {
        255u8
    };
    match view_lookup(entries, "unit_id"@) {
        Some(v) => match view_i64(v) {
            Some(n) => if 0 <= n <= 255 {
                n as u8
            } else {
                fallback
            },
            None => fallback,
        },
        None => fallback,
    }
}

/// The units that the `devices:` entries of a Modbus config declare, in
/// the order they were first assigned; entries without a string `id` are
/// skipped.
pub open spec fn unit_entries(items: Seq<ValueView>) -> Seq<(u8, Seq<char>)>
    decreases items.len(),
{
    if items.len() == 0 {
        Seq::empty()
    } else {
        let s = unit_entries(items.drop_last());
        match items.last() {
            ValueView::Mapping(es) => match view_lookup(es, "id"@) {
                Some(ValueView::Str(id)) => assign_unit(s, unit_of(es, s.len()), id),
                _ => s,
            },
            _ => s,
        }
    }
}

pub open spec fn unit_views(units: Seq<(u8, String)>) -> Seq<(u8, Seq<char>)> {
    units.map_values(|e: (u8, String)| (e.0, e.1@))
}

proof fn lemma_unit_index_stable(s: Seq<(u8, Seq<char>)>, unit: u8, k: int)
    requires
        0 <= k <= s.len(),
        unit_index(s.take(k), unit) is Some,
    ensures
        unit_index(s, unit) == unit_index(s.take(k), unit),
    decreases s.len(),
{
    if s.len() > k {
        assert(s.drop_last().take(k) =~= s.take(k));
        lemma_unit_index_stable(s.drop_last(), unit, k);
    } else {
        assert(s.take(k) =~= s);
    }
}

/// The unit ids under which a Modbus config's devices are served.
#[verifier::loop_isolation(false)]
pub fn modbus_unit_map(modbus: &StrMap<Value>) -> (units: Vec<(u8, String)>)
    ensures
        unit_views(units@) == match crate::modbus::device_list(value_views(modbus@)) {
            Some(items) => unit_entries(items),
            None => Seq::empty(),
        },
{
    let mut units: Vec<(u8, String)> = Vec::new();
    assert(unit_views(units@) =~= Seq::<(u8, Seq<char>)>::empty());
    let items = match modbus.get("devices") {
        Some(v) => match v.as_list() {
            Some(items) => items,
            None => {
                return units;
            },
        },
        None => {
            return units;
        },
    };
    let ghost all = view_list(items@);
    proof {
        lemma_view_list(items@);
    }
    let mut i: usize = 0;
    assert(all.take(0) =~= Seq::<ValueView>::empty());
    while i < items.len()
        invariant
            i <= items.len(),
            all == view_list(items@),
            unit_views(units@) == unit_entries(all.take(i as int)),
        decreases items.len() - i,
    {
        let ghost prefix = all.take(i + 1);
        assert(prefix.drop_last() =~= all.take(i as int));
        assert(prefix.last() == items@[i as int]@);
        match items[i].as_mapping() {
            Some(entries) => match mapping_get(entries, "id") {
                Some(idv) => match idv.as_str() {
                    Some(id) => {
                        let fallback: u8 = if units.len() < 255 {
                            (units.len() + 1) as u8
                        } else {
                            255u8
                        };
                        let unit: u8 = match mapping_get(entries, "unit_id") {
                            Some(u) => match u.as_i64() {
                                Some(n) => if n >= 0 && n <= 255 {
                                    n as u8
                                } else {
                                    fallback
                                },
                                None => fallback,
                            },
                            None => fallback,
                        };
                        let ghost sv = unit_views(units@);
                        let mut j: usize = 0;
                        let mut found: Option<usize> = None;
                        assert(sv.take(0) =~= Seq::<(u8, Seq<char>)>::empty());
                        while j < units.len()
                            invariant
                                j <= units.len(),
                                sv == unit_views(units@),
                                found is None,
                                unit_index(sv.take(j as int), unit) is None,
                            decreases units.len() - j,
                        {
                            assert(sv.take(j + 1).drop_last() =~= sv.take(j as int));
                            if units[j].0 == unit {
                                proof {
                                    lemma_unit_index_stable(sv, unit, j + 1);
                                }
                                found = Some(j);
                                break;
                            }
                            j = j + 1;
                        }
                        match found {
                            Some(k) => {
                                units.set(k, (unit, id.clone()));
                                assert(unit_views(units@) =~= sv.update(k as int, (unit, id@)));
                            },
                            None => {
                                assert(sv.take(units.len() as int) =~= sv);
                                units.push((unit, id.clone()));
                                assert(unit_views(units@) =~= sv.push((unit, id@)));
                            },
                        }
                    },
                    None => {},
                },
                None => {},
            },
            None => {},
        }
        i = i + 1;
    }
    assert(all.take(items.len() as int) =~= all);
    units
}

/// A scenario step that writes a Modbus register.
pub struct ModbusWriteStep {
    pub device: String,
    pub register: u32,
    pub value: Value,
}

/// The model after one write, when the register is writable.
pub open spec fn after_write(m: ModbusView, w: ModbusWriteStep) -> ModbusView {
    let d = w.device@;
    let r = w.register;
    if m.contains_key(d) && m[d].contains_key(r) && m[d][r].access == ModbusRegisterAccess::ReadWrite {
        m.insert(
            d,
            m[d].insert(
                r,
                RegisterView {
                    value: crate::json::json_or_null(w.value@),
                    value_type: m[d][r].value_type,
                    access: ModbusRegisterAccess::ReadWrite,
                },
            ),
        )
    } else {
        m
    }
}

/// The model after the writes, in order; refused writes change nothing.
pub open spec fn after_writes(m: ModbusView, ws: Seq<ModbusWriteStep>) -> ModbusView
    decreases ws.len(),
{
    if ws.len() == 0 {
        m
    } else {
        after_write(after_writes(m, ws.drop_last()), ws.last())
    }
}

/// Applies a scenario's Modbus writes in order, skipping refused ones.
pub fn apply_scenario_modbus_steps(writes: &Vec<ModbusWriteStep>, modbus: &mut ModbusModel)
    ensures
        final(modbus)@ == after_writes(old(modbus)@, writes@),
{
    let ghost start = modbus@;
    let mut i: usize = 0;
    assert(writes@.take(0) =~= Seq::<ModbusWriteStep>::empty());
    while i < writes.len()
        invariant
            i <= writes.len(),
            modbus@ == after_writes(start, writes@.take(i as int)),
        decreases writes.len() - i,
    {
        assert(writes@.take(i + 1).drop_last() =~= writes@.take(i as int));
        let w = &writes[i];
        let value = w.value.deep_clone();
        let _ = modbus.write(w.device.as_str(), w.register, value);
        i = i + 1;
    }
    assert(writes@.take(writes.len() as int) =~= writes@);
}

/// A holding register written with function 6 reads back, with function 3
/// at the same address, as the word written.
pub proof fn law_write_then_read_returns_word(
    m: ModbusView,
    units: Seq<(u8, String)>,
    write: ModbusTcpRequest,
    read: ModbusTcpRequest,
)
    requires
        write.function == 6,
        write.payload@.len() == 4,
        write_outcome(m, units, write).1.len() == 1,
        read.function == 3,
        read.unit_id == write.unit_id,
        read.payload@ == seq![write.payload@[0], write.payload@[1], 0u8, 1u8],
    ensures
        read_outcome(write_outcome(m, units, write).2, units, read).0 == success_frame(
            read,
            seq![2u8, write.payload@[2], write.payload@[3]],
        ),
{
    let p = write.payload@;
    let d = unit_device(units, write.unit_id)->Some_0;
    let a = be16(p[0], p[1]) as u32;
    let r = normalized_register(m, d, 6, a);
    let v = be16(p[2], p[3]);
    let m2 = write_outcome(m, units, write).2;
    assert(has_reg(m, d, r as int));
    assert(m2 == m.insert(
        d,
        m[d].insert(
            r,
            crate::modbus::RegisterView {
                value: ValueView::Int(v),
                value_type: m[d][r].value_type,
                access: ModbusRegisterAccess::ReadWrite,
            },
        ),
    ));
    assert forall|x: int| has_reg(m2, d, x) == has_reg(m, d, x) by {}
    assert(be16(read.payload@[0], read.payload@[1]) == be16(p[0], p[1]));
    assert(normalized_register(m2, d, 3, a) == r);
    assert(be16(read.payload@[2], read.payload@[3]) == 1);
    assert(word_at(m2, d, r as int) == Some(v as u16));
    let words = Seq::new(1, |k: int| word_at(m2, d, r + k)->Some_0);
    assert(words =~= seq![v as u16]);
    let hi = p[2];
    let lo = p[3];
    assert(v == hi * 256 + lo);
    assert(((v as u16) / 256) as u8 == hi && ((v as u16) % 256) as u8 == lo) by (nonlinear_arith)
        requires
            v == hi * 256 + lo,
            0 <= hi < 256,
            0 <= lo < 256,
    ;
    assert(be16_bytes(v as u16) =~= seq![p[2], p[3]]);
    assert(words.drop_last() =~= Seq::<u16>::empty());
    assert(words.last() == v as u16);
    assert(words_bytes(words) == words_bytes(words.drop_last()) + be16_bytes(words.last()));
    assert(words_bytes(words) =~= seq![p[2], p[3]]);
    assert(seq![2u8] + seq![p[2], p[3]] =~= seq![2u8, p[2], p[3]]);
}

} // verus!

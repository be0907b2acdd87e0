//! The Modbus device model: per-device register tables, filled from a
//! scenario's `modbus:` config, with read-only access for input registers
//! and discrete inputs.

use vstd::prelude::*;

use crate::checks::{all_digits, digits_value, parse_digits_u64};
use crate::device::DeviceModelError;
use crate::json::{json_or_null, to_json_or_null};
use crate::scenario::opt_text;
use crate::strmap::{value_views, StrMap};
use crate::text::{chars_of, concat2, decimal, push_str, str_eq, to_owned, u64_to_string};
use crate::value::{
    lemma_view_entries, lemma_view_list, mapping_get, view_entries, view_list, view_lookup, Value,
    ValueView,
};

verus! {

/// Whether a register may be written.
#[derive(Debug, Clone, Copy, PartialEq, Eq, Structural)]
pub enum ModbusRegisterAccess {
    ReadOnly,
    ReadWrite,
}

/// A register: its JSON value, its declared type and its access.
#[derive(Debug)]
pub struct ModbusRegister {
    pub value: Value,
    pub value_type: Option<String>,
    pub access: ModbusRegisterAccess,
}

pub struct RegisterView {
    pub value: ValueView,
    pub value_type: Option<Seq<char>>,
    pub access: ModbusRegisterAccess,
}

impl View for ModbusRegister {
    type V = RegisterView;

    open spec fn view(&self) -> RegisterView {
        RegisterView { value: self.value@, value_type: opt_text(self.value_type), access: self.access }
    }
}

/// The table that entries with distinct addresses stand for.
pub open spec fn register_map(es: Seq<(u32, ModbusRegister)>) -> Map<u32, RegisterView>
    decreases es.len(),
{
    if es.len() == 0 {
        Map::empty()
    } else {
        register_map(es.drop_last()).insert(es.last().0, es.last().1@)
    }
}

pub open spec fn distinct_addresses(es: Seq<(u32, ModbusRegister)>) -> bool {
    forall|i: int, j: int|
        0 <= i < es.len() && 0 <= j < es.len() && i != j ==> #[trigger] es[i].0 != #[trigger] es[j].0
}

proof fn lemma_register_map(es: Seq<(u32, ModbusRegister)>)
    requires
        distinct_addresses(es),
    ensures
        forall|a: u32|
            #[trigger] register_map(es).contains_key(a) <==> exists|i: int|
                0 <= i < es.len() && es[i].0 == a,
        forall|i: int|
            0 <= i < es.len() ==> register_map(es).contains_key(#[trigger] es[i].0)
                && register_map(es)[es[i].0] == es[i].1@,
    decreases es.len(),
{
    if es.len() > 0 {
        let init = es.drop_last();
        assert(distinct_addresses(init)) by {
            assert forall|i: int, j: int|
                0 <= i < init.len() && 0 <= j < init.len() && i != j implies #[trigger] init[i].0
                != #[trigger] init[j].0 by {
                assert(init[i] == es[i]);
                assert(init[j] == es[j]);
            }
        }
        lemma_register_map(init);
        let last = es.last();
        assert forall|i: int| 0 <= i < init.len() implies init[i].0 != last.0 by {
            assert(init[i] == es[i]);
            assert(last == es[es.len() - 1]);
        }
        assert(!register_map(init).contains_key(last.0));
        assert(register_map(es) == register_map(init).insert(last.0, last.1@));
        assert forall|a: u32|
            #[trigger] register_map(es).contains_key(a) <==> exists|i: int|
                0 <= i < es.len() && es[i].0 == a by {
            if register_map(es).contains_key(a) {
                if a == last.0 {
                    assert(es[es.len() - 1].0 == a);
                } else {
                    assert(register_map(init).contains_key(a));
                    let i = choose|i: int| 0 <= i < init.len() && init[i].0 == a;
                    assert(es[i] == init[i]);
                }
            }
            if exists|i: int| 0 <= i < es.len() && es[i].0 == a {
                let i = choose|i: int| 0 <= i < es.len() && es[i].0 == a;
                if i < es.len() - 1 {
                    assert(init[i] == es[i]);
                }
            }
        }
        assert forall|i: int| 0 <= i < es.len() implies register_map(es).contains_key(
            #[trigger] es[i].0,
        ) && register_map(es)[es[i].0] == es[i].1@ by {
            if i < es.len() - 1 {
                assert(init[i] == es[i]);
                assert(es[i].0 != last.0);
            }
        }
    }
}

/// A device's registers, one per address.
#[derive(Debug)]
pub struct RegisterTable {
    entries: Vec<(u32, ModbusRegister)>,
}

impl View for RegisterTable {
    type V = Map<u32, RegisterView>;

    closed spec fn view(&self) -> Map<u32, RegisterView> {
        register_map(self.entries@)
    }
}

impl RegisterTable {
    #[verifier::type_invariant]
    closed spec fn well_formed(&self) -> bool {
        distinct_addresses(self.entries@)
    }

    pub fn new() -> (t: Self)
        ensures
            t@ == Map::<u32, RegisterView>::empty(),
    {
        RegisterTable { entries: Vec::new() }
    }

    fn find(&self, address: u32) -> (r: Option<usize>)
        ensures
            match r {
                Some(i) => i < self.entries.len() && self.entries@[i as int].0 == address,
                None => !self@.contains_key(address),
            },
    {
        proof {
            use_type_invariant(self);
            lemma_register_map(self.entries@);
        }
        let mut i: usize = 0;
        while i < self.entries.len()
            invariant
                i <= self.entries.len(),
                forall|j: int| 0 <= j < i ==> self.entries@[j].0 != address,
            decreases self.entries.len() - i,
        {
            if self.entries[i].0 == address {
                return Some(i);
            }
            i = i + 1;
        }
        None
    }

    /// The register at `address`.
    pub fn get(&self, address: u32) -> (r: Option<&ModbusRegister>)
        ensures
            match r {
                Some(reg) => self@.contains_key(address) && reg@ == self@[address],
                None => !self@.contains_key(address),
            },
    {
        proof {
            use_type_invariant(self);
            lemma_register_map(self.entries@);
        }
        match self.find(address) {
            Some(i) => Some(&self.entries[i].1),
            None => None,
        }
    }

    /// Sets the register at `address`, replacing the one there.
    pub fn insert(&mut self, address: u32, register: ModbusRegister)
        ensures
            final(self)@ == old(self)@.insert(address, register@),
    {
        proof {
            use_type_invariant(&*self);
            lemma_register_map(self.entries@);
        }
        let ghost before = self.entries@;
        let ghost rv = register@;
        match self.find(address) {
            Some(i) => {
                let mut entries: Vec<(u32, ModbusRegister)> = Vec::new();
                std::mem::swap(&mut entries, &mut self.entries);
                entries.set(i, (address, register));
                let ghost after = entries@;
                assert(after == before.update(i as int, (address, after[i as int].1)));
                assert(distinct_addresses(after)) by {
                    assert forall|p: int, q: int|
                        0 <= p < after.len() && 0 <= q < after.len() && p != q implies #[trigger] after[p].0
                        != #[trigger] after[q].0 by {
                        if p != i && q != i {
                            assert(after[p] == before[p] && after[q] == before[q]);
                        } else if p == i {
                            assert(after[q] == before[q]);
                            assert(before[p].0 == address);
                        } else {
                            assert(after[p] == before[p]);
                            assert(before[q].0 == address);
                        }
                    }
                }
                self.entries = entries;
                proof {
                    lemma_register_map(after);
                    let m = register_map(before).insert(address, rv);
                    assert forall|a: u32| #[trigger] register_map(after).contains_key(a) <==> m.contains_key(a) by {
                        if register_map(after).contains_key(a) {
                            let p = choose|p: int| 0 <= p < after.len() && after[p].0 == a;
                            if p != i {
                                assert(after[p] == before[p]);
                            }
                        }
                        if register_map(before).contains_key(a) {
                            let p = choose|p: int| 0 <= p < before.len() && before[p].0 == a;
                            if p != i {
                                assert(after[p] == before[p]);
                            } else {
                                assert(after[p].0 == a);
                            }
                        }
                        if a == address {
                            assert(after[i as int].0 == a);
                        }
                    }
                    assert forall|a: u32| #[trigger] register_map(after).contains_key(a) implies register_map(after)[a] == m[a] by {
                        let p = choose|p: int| 0 <= p < after.len() && after[p].0 == a;
                        if p != i {
                            assert(after[p] == before[p]);
                        }
                    }
                    assert(register_map(after) =~= m);
                }
            },
            None => {
                let mut entries: Vec<(u32, ModbusRegister)> = Vec::new();
                std::mem::swap(&mut entries, &mut self.entries);
                entries.push((address, register));
                let ghost after = entries@;
                assert(after.drop_last() =~= before);
                assert(distinct_addresses(after)) by {
                    assert forall|p: int, q: int|
                        0 <= p < after.len() && 0 <= q < after.len() && p != q implies #[trigger] after[p].0
                        != #[trigger] after[q].0 by {
                        if p < before.len() && q < before.len() {
                            assert(after[p] == before[p] && after[q] == before[q]);
                        } else if p < before.len() {
                            assert(after[p] == before[p]);
                            assert(register_map(before).contains_key(before[p].0));
                        } else {
                            assert(after[q] == before[q]);
                            assert(register_map(before).contains_key(before[q].0));
                        }
                    }
                }
                self.entries = entries;
            },
        }
    }
}

// ---------------------------------------------------------------------------
// Reading the config
// ---------------------------------------------------------------------------

/// A register address given as a key: an integer that fits `u32`, or text
/// that `u32` parsing accepts (an optional `+`, then decimal digits).
pub open spec fn key_address(k: ValueView) -> Option<u32> {
    match k {
        ValueView::Int(n) => if 0 <= n <= u32::MAX {
            Some(n as u32)
        } else {
            None
        },
        ValueView::Str(s) => {
            let digits = if s.len() > 0 && s[0] == '+' {
                s.drop_first()
            } else {
                s
            };
            if digits.len() > 0 && all_digits(digits) && digits_value(digits) <= u32::MAX {
                Some(digits_value(digits) as u32)
            } else {
                None
            }
        },
        _ => None,
    }
}

/// The register one `address: definition` entry of a section declares.
pub open spec fn register_step(
    m: Map<u32, RegisterView>,
    entry: (ValueView, ValueView),
    id: Seq<char>,
    section: Seq<char>,
    access: ModbusRegisterAccess,
) -> Result<Map<u32, RegisterView>, Seq<char>> {
    match key_address(entry.0) {
        None => Err("register address in "@ + id + "."@ + section + " must be u32"@),
        Some(a) => match entry.1 {
            ValueView::Mapping(d) => match view_lookup(d, "value"@) {
                None => Err("register "@ + id + ":"@ + decimal(a as nat) + " must declare value"@),
                Some(v) => Ok(
                    m.insert(
                        a,
                        RegisterView {
                            value: json_or_null(v),
                            value_type: match view_lookup(d, "type"@) {
                                Some(ValueView::Str(t)) => Some(t),
                                _ => None,
                            },
                            access,
                        },
                    ),
                ),
            },
            _ => Err(
                "register "@ + id + ":"@ + decimal(a as nat) + " definition must be a YAML map"@,
            ),
        },
    }
}

/// The registers of a section's entries, added in order.
pub open spec fn section_entries(
    es: Seq<(ValueView, ValueView)>,
    id: Seq<char>,
    section: Seq<char>,
    access: ModbusRegisterAccess,
    regs: Map<u32, RegisterView>,
) -> Result<Map<u32, RegisterView>, Seq<char>>
    decreases es.len(),
{
    if es.len() == 0 {
        Ok(regs)
    } else {
        match section_entries(es.drop_last(), id, section, access, regs) {
            Err(e) => Err(e),
            Ok(m) => register_step(m, es.last(), id, section, access),
        }
    }
}

/// The registers of one section of a device, when the device has it.
pub open spec fn section_step(
    item: ValueView,
    id: Seq<char>,
    section: Seq<char>,
    access: ModbusRegisterAccess,
    regs: Map<u32, RegisterView>,
) -> Result<Map<u32, RegisterView>, Seq<char>> {
    match item {
        ValueView::Mapping(entries) => match view_lookup(entries, section) {
            Some(ValueView::Mapping(es)) => section_entries(es, id, section, access, regs),
            _ => Ok(regs),
        },
        _ => Ok(regs),
    }
}

/// A device's registers from its four sections: holding registers and
/// coils (writable), then input registers and discrete inputs (read-only).
pub open spec fn device_registers(item: ValueView, id: Seq<char>, regs: Map<u32, RegisterView>) -> Result<
    Map<u32, RegisterView>,
    Seq<char>,
> {
    match section_step(item, id, "holding_registers"@, ModbusRegisterAccess::ReadWrite, regs) {
        Err(e) => Err(e),
        Ok(r1) => match section_step(item, id, "coils"@, ModbusRegisterAccess::ReadWrite, r1) {
            Err(e) => Err(e),
            Ok(r2) => match section_step(
                item,
                id,
                "input_registers"@,
                ModbusRegisterAccess::ReadOnly,
                r2,
            ) {
                Err(e) => Err(e),
                Ok(r3) => section_step(
                    item,
                    id,
                    "discrete_inputs"@,
                    ModbusRegisterAccess::ReadOnly,
                    r3,
                ),
            },
        },
    }
}

/// The devices after one more `devices[]` entry; a device named twice
/// keeps its earlier registers.
pub open spec fn device_step(devs: Map<Seq<char>, Map<u32, RegisterView>>, item: ValueView) -> Result<
    Map<Seq<char>, Map<u32, RegisterView>>,
    Seq<char>,
> {
    match item {
        ValueView::Mapping(entries) => match view_lookup(entries, "id"@) {
            Some(ValueView::Str(id)) => {
                let regs0 = if devs.contains_key(id) {
                    devs[id]
                } else {
                    Map::empty()
                };
                match device_registers(item, id, regs0) {
                    Ok(regs) => Ok(devs.insert(id, regs)),
                    Err(e) => Err(e),
                }
            },
            _ => Err("devices[].id must be a string"@),
        },
        _ => Err("devices[] entries must be YAML maps"@),
    }
}

/// The devices that a `devices:` list declares, or the message of its
/// first malformed part.
pub open spec fn modbus_devices(items: Seq<ValueView>) -> Result<
    Map<Seq<char>, Map<u32, RegisterView>>,
    Seq<char>,
>
    decreases items.len(),
{
    if items.len() == 0 {
        Ok(Map::empty())
    } else {
        match modbus_devices(items.drop_last()) {
            Err(e) => Err(e),
            Ok(devs) => device_step(devs, items.last()),
        }
    }
}

/// The `devices:` list of a Modbus config, when it is a list.
pub open spec fn device_list(config: Map<Seq<char>, ValueView>) -> Option<Seq<ValueView>> {
    if config.contains_key("devices"@) {
        match config["devices"@] {
            ValueView::List(items) => Some(items),
            _ => None,
        }
    } else {
        None
    }
}

pub open spec fn table_views(m: Map<Seq<char>, RegisterTable>) -> Map<Seq<char>, Map<u32, RegisterView>> {
    m.map_values(|t: RegisterTable| t@)
}

#[verifier::loop_isolation(false)]
fn parse_address_text(s: &String) -> (r: Option<u32>)
    ensures
        r == key_address(ValueView::Str(s@)),
{
    let chars = chars_of(s.as_str());
    let start: usize = if chars.len() > 0 && chars[0] == '+' {
        1
    } else {
        0
    };
    let ghost digits = if s@.len() > 0 && s@[0] == '+' {
        s@.drop_first()
    } else {
        s@
    };
    assert(chars@.subrange(start as int, chars.len() as int) =~= digits);
    if start == chars.len() {
        return None;
    }
    let mut i: usize = start;
    while i < chars.len()
        invariant
            start <= i <= chars.len(),
            chars@ == s@,
            forall|j: int| start <= j < i ==> crate::text::is_ascii_digit(#[trigger] chars@[j]),
        decreases chars.len() - i,
    {
        if !crate::text::char_is_ascii_digit(chars[i]) {
            assert(digits[i - start] == chars@[i as int]);
            return None;
        }
        i = i + 1;
    }
    assert(all_digits(digits)) by {
        assert forall|j: int| 0 <= j < digits.len() implies crate::text::is_ascii_digit(#[trigger] digits[j]) by {
            assert(digits[j] == chars@[j + start]);
        }
    }
    match parse_digits_u64(&chars, start, chars.len()) {
        Some(v) => if v <= 4294967295u64 {
            Some(v as u32)
        } else {
            None
        },
        None => None,
    }
}

fn key_address_of(k: &Value) -> (r: Option<u32>)
    ensures
        r == key_address(k@),
{
    match k {
        Value::Int(n) => if *n >= 0 && *n <= 4294967295i64 {
            Some(*n as u32)
        } else {
            None
        },
        Value::UInt(n) => if *n <= 4294967295u64 {
            Some(*n as u32)
        } else {
            None
        },
        Value::Str(s) => parse_address_text(s),
        _ => None,
    }
}

proof fn lemma_section_prefix_error(
    es: Seq<(ValueView, ValueView)>,
    k: int,
    id: Seq<char>,
    section: Seq<char>,
    access: ModbusRegisterAccess,
    regs: Map<u32, RegisterView>,
)
    requires
        0 <= k <= es.len(),
        section_entries(es.take(k), id, section, access, regs) is Err,
    ensures
        section_entries(es, id, section, access, regs) == section_entries(es.take(k), id, section, access, regs),
    decreases es.len(),
{
    if es.len() > k {
        assert(es.drop_last().take(k) =~= es.take(k));
        lemma_section_prefix_error(es.drop_last(), k, id, section, access, regs);
    } else {
        assert(es.take(k) =~= es);
    }
}

fn address_error(prefix: &str, id: &str, address: u32, suffix: &str) -> (m: String)
    ensures
        m@ == prefix@ + id@ + ":"@ + decimal(address as nat) + suffix@,
{
    let mut m = concat2(prefix, id);
    push_str(&mut m, ":");
    let n = u64_to_string(address as u64);
    push_str(&mut m, n.as_str());
    push_str(&mut m, suffix);
    m
}

/// Adds the registers of a section's entries to `table`.
#[verifier::loop_isolation(false)]
fn add_section_entries(
    table: &mut RegisterTable,
    es: &Vec<(Value, Value)>,
    id: &str,
    section: &str,
    access: ModbusRegisterAccess,
) -> (r: Result<(), String>)
    ensures
        match r {
            Ok(()) => section_entries(view_entries(es@), id@, section@, access, old(table)@) == Ok::<
                Map<u32, RegisterView>,
                Seq<char>,
            >(final(table)@),
            Err(m) => section_entries(view_entries(es@), id@, section@, access, old(table)@) == Err::<
                Map<u32, RegisterView>,
                Seq<char>,
            >(m@),
        },
{
    let ghost all = view_entries(es@);
    let ghost start = table@;
    proof {
        lemma_view_entries(es@);
    }
    let mut i: usize = 0;
    assert(all.take(0) =~= Seq::<(ValueView, ValueView)>::empty());
    while i < es.len()
        invariant
            i <= es.len(),
            all == view_entries(es@),
            section_entries(all.take(i as int), id@, section@, access, start) == Ok::<
                Map<u32, RegisterView>,
                Seq<char>,
            >(table@),
        decreases es.len() - i,
    {
        let ghost prefix = all.take(i + 1);
        assert(prefix.drop_last() =~= all.take(i as int));
        assert(prefix.last() == (es@[i as int].0@, es@[i as int].1@));
        let address = match key_address_of(&es[i].0) {
            Some(a) => a,
            None => {
                let mut m = concat2("register address in ", id);
                push_str(&mut m, ".");
                push_str(&mut m, section);
                push_str(&mut m, " must be u32");
                proof {
                    lemma_section_prefix_error(all, i + 1, id@, section@, access, start);
                }
                return Err(m);
            },
        };
        let definition = match es[i].1.as_mapping() {
            Some(d) => d,
            None => {
                let m = address_error("register ", id, address, " definition must be a YAML map");
                proof {
                    lemma_section_prefix_error(all, i + 1, id@, section@, access, start);
                }
                return Err(m);
            },
        };
        let value = match mapping_get(definition, "value") {
            Some(v) => v,
            None => {
                let m = address_error("register ", id, address, " must declare value");
                proof {
                    lemma_section_prefix_error(all, i + 1, id@, section@, access, start);
                }
                return Err(m);
            },
        };
        let value_type = match mapping_get(definition, "type") {
            Some(t) => match t.as_str() {
                Some(text) => Some(text.clone()),
                None => None,
            },
            None => None,
        };
        let register = ModbusRegister { value: to_json_or_null(value), value_type, access };
        table.insert(address, register);
        i = i + 1;
    }
    assert(all.take(es.len() as int) =~= all);
    Ok(())
}

/// Adds the registers of one section of a device to `table`.
fn add_section(
    table: &mut RegisterTable,
    device: &Vec<(Value, Value)>,
    id: &str,
    section: &str,
    access: ModbusRegisterAccess,
) -> (r: Result<(), String>)
    ensures
        match r {
            Ok(()) => section_step(
                ValueView::Mapping(view_entries(device@)),
                id@,
                section@,
                access,
                old(table)@,
            ) == Ok::<Map<u32, RegisterView>, Seq<char>>(final(table)@),
            Err(m) => section_step(
                ValueView::Mapping(view_entries(device@)),
                id@,
                section@,
                access,
                old(table)@,
            ) == Err::<Map<u32, RegisterView>, Seq<char>>(m@),
        },
{
    match mapping_get(device, section) {
        Some(v) => match v.as_mapping() {
            Some(es) => add_section_entries(table, es, id, section, access),
            None => Ok(()),
        },
        None => Ok(()),
    }
}

/// Adds one `devices[]` entry to `devices`.
#[verifier::loop_isolation(false)]
fn add_device(devices: &mut StrMap<RegisterTable>, item: &Value) -> (r: Result<(), String>)
    ensures
        match r {
            Ok(()) => device_step(table_views(old(devices)@), item@) == Ok::<
                Map<Seq<char>, Map<u32, RegisterView>>,
                Seq<char>,
            >(table_views(final(devices)@)),
            Err(m) => device_step(table_views(old(devices)@), item@) == Err::<
                Map<Seq<char>, Map<u32, RegisterView>>,
                Seq<char>,
            >(m@),
        },
{
    let ghost before = table_views(devices@);
    let entries = match item.as_mapping() {
        Some(e) => e,
        None => {
            return Err(to_owned("devices[] entries must be YAML maps"));
        },
    };
    let id = match mapping_get(entries, "id") {
        Some(v) => match v.as_str() {
            Some(s) => s,
            None => {
                return Err(to_owned("devices[].id must be a string"));
            },
        },
        None => {
            return Err(to_owned("devices[].id must be a string"));
        },
    };
    let ghost idv = id@;
    let mut table = match devices.insert(id.clone(), RegisterTable::new()) {
        Some(t) => t,
        None => RegisterTable::new(),
    };
    let ghost regs0 = table@;
    assert(regs0 == if before.contains_key(idv) {
        before[idv]
    } else {
        Map::<u32, RegisterView>::empty()
    });
    let ghost iv = item@;
    assert(iv == ValueView::Mapping(view_entries(entries@)));
    match add_section(&mut table, entries, id.as_str(), "holding_registers", ModbusRegisterAccess::ReadWrite) {
        Err(m) => {
            return Err(m);
        },
        Ok(()) => {},
    }
    match add_section(&mut table, entries, id.as_str(), "coils", ModbusRegisterAccess::ReadWrite) {
        Err(m) => {
            return Err(m);
        },
        Ok(()) => {},
    }
    match add_section(&mut table, entries, id.as_str(), "input_registers", ModbusRegisterAccess::ReadOnly) {
        Err(m) => {
            return Err(m);
        },
        Ok(()) => {},
    }
    match add_section(&mut table, entries, id.as_str(), "discrete_inputs", ModbusRegisterAccess::ReadOnly) {
        Err(m) => {
            return Err(m);
        },
        Ok(()) => {},
    }
    let ghost regs = table@;
    devices.insert(id.clone(), table);
    assert(table_views(devices@) =~= before.insert(idv, regs));
    Ok(())
}

proof fn lemma_devices_prefix_error(items: Seq<ValueView>, k: int)
    requires
        0 <= k <= items.len(),
        modbus_devices(items.take(k)) is Err,
    ensures
        modbus_devices(items) == modbus_devices(items.take(k)),
    decreases items.len(),
{
    if items.len() > k {
        assert(items.drop_last().take(k) =~= items.take(k));
        lemma_devices_prefix_error(items.drop_last(), k);
    } else {
        assert(items.take(k) =~= items);
    }
}

/// The Modbus device model: each declared device's register table.
#[derive(Debug)]
pub struct ModbusModel {
    devices: StrMap<RegisterTable>,
}

impl View for ModbusModel {
    type V = Map<Seq<char>, Map<u32, RegisterView>>;

    closed spec fn view(&self) -> Map<Seq<char>, Map<u32, RegisterView>> {
        table_views(self.devices@)
    }
}

impl ModbusModel {
    /// A model without devices.
    pub fn new() -> (m: Self)
        ensures
            m@ == Map::<Seq<char>, Map<u32, RegisterView>>::empty(),
    {
        let m = ModbusModel { devices: StrMap::new() };
        assert(m@ =~= Map::<Seq<char>, Map<u32, RegisterView>>::empty());
        m
    }

    /// Builds the model from a `modbus:` config: each `devices[]` entry
    /// names an `id` and may hold `holding_registers`, `coils`,
    /// `input_registers` and `discrete_inputs` maps from address to a
    /// definition with a `value` and an optional `type`.
    #[verifier::loop_isolation(false)]
    pub fn try_from_config(modbus: &StrMap<Value>) -> (r: Result<Self, DeviceModelError>)
        ensures
            match r {
                Ok(m) => match device_list(value_views(modbus@)) {
                    Some(items) => modbus_devices(items) == Ok::<
                        Map<Seq<char>, Map<u32, RegisterView>>,
                        Seq<char>,
                    >(m@),
                    None => m@ == Map::<Seq<char>, Map<u32, RegisterView>>::empty(),
                },
                Err(DeviceModelError::InvalidModbusConfig(msg)) => match device_list(
                    value_views(modbus@),
                ) {
                    Some(items) => modbus_devices(items) == Err::<
                        Map<Seq<char>, Map<u32, RegisterView>>,
                        Seq<char>,
                    >(msg@),
                    None => false,
                },
                Err(_) => false,
            },
    {
        let items = match modbus.get("devices") {
            Some(v) => match v.as_list() {
                Some(items) => items,
                None => {
                    return Ok(Self::new());
                },
            },
            None => {
                return Ok(Self::new());
            },
        };
        let ghost all = view_list(items@);
        proof {
            lemma_view_list(items@);
            assert(device_list(value_views(modbus@)) == Some(all));
        }
        let mut devices: StrMap<RegisterTable> = StrMap::new();
        assert(table_views(devices@) =~= Map::<Seq<char>, Map<u32, RegisterView>>::empty());
        let mut i: usize = 0;
        assert(all.take(0) =~= Seq::<ValueView>::empty());
        while i < items.len()
            invariant
                i <= items.len(),
                all == view_list(items@),
                modbus_devices(all.take(i as int)) == Ok::<
                    Map<Seq<char>, Map<u32, RegisterView>>,
                    Seq<char>,
                >(table_views(devices@)),
            decreases items.len() - i,
        {
            let ghost prefix = all.take(i + 1);
            assert(prefix.drop_last() =~= all.take(i as int));
            assert(prefix.last() == items@[i as int]@);
            match add_device(&mut devices, &items[i]) {
                Err(m) => {
                    proof {
                        lemma_devices_prefix_error(all, i + 1);
                    }
                    return Err(DeviceModelError::InvalidModbusConfig(m));
                },
                Ok(()) => {},
            }
            i = i + 1;
        }
        assert(all.take(items.len() as int) =~= all);
        Ok(ModbusModel { devices })
    }

    /// Builds the model from config, with no devices when it is malformed.
    pub fn from_config(modbus: &StrMap<Value>) -> (m: Self)
        ensures
            match device_list(value_views(modbus@)) {
                Some(items) => match modbus_devices(items) {
                    Ok(devs) => m@ == devs,
                    Err(_) => m@ == Map::<Seq<char>, Map<u32, RegisterView>>::empty(),
                },
                None => m@ == Map::<Seq<char>, Map<u32, RegisterView>>::empty(),
            },
    {
        match Self::try_from_config(modbus) {
            Ok(m) => m,
            Err(_) => Self::new(),
        }
    }

    /// Whether `device` has a register at `register`.
    pub fn has_register(&self, device: &str, register: u32) -> (b: bool)
        ensures
            b == (self@.contains_key(device@) && self@[device@].contains_key(register)),
    {
        match self.devices.get(device) {
            Some(table) => table.get(register).is_some(),
            None => false,
        }
    }

    /// The value of a register.
    pub fn value(&self, device: &str, register: u32) -> (r: Option<&Value>)
        ensures
            match r {
                Some(v) => self@.contains_key(device@) && self@[device@].contains_key(register)
                    && v@ == self@[device@][register].value,
                None => !(self@.contains_key(device@) && self@[device@].contains_key(register)),
            },
    {
        match self.devices.get(device) {
            Some(table) => match table.get(register) {
                Some(reg) => Some(&reg.value),
                None => None,
            },
            None => None,
        }
    }

    /// A register, or why there is none: the device or the register is
    /// unknown.
    pub fn register(&self, device: &str, register: u32) -> (r: Result<&ModbusRegister, DeviceModelError>)
        ensures
            match r {
                Ok(reg) => self@.contains_key(device@) && self@[device@].contains_key(register)
                    && reg@ == self@[device@][register],
                Err(DeviceModelError::UnknownModbusDevice(d)) => !self@.contains_key(device@) && d@
                    == device@,
                Err(DeviceModelError::UnknownModbusRegister { device: d, register: a }) =>
                    self@.contains_key(device@) && !self@[device@].contains_key(register) && d@
                    == device@ && a == register,
                Err(_) => false,
            },
    {
        match self.devices.get(device) {
            Some(table) => match table.get(register) {
                Some(reg) => Ok(reg),
                None => Err(
                    DeviceModelError::UnknownModbusRegister { device: to_owned(device), register },
                ),
            },
            None => Err(DeviceModelError::UnknownModbusDevice(to_owned(device))),
        }
    }

    /// Succeeds for a known, writable register.
    pub fn assert_writable(&self, device: &str, register: u32) -> (r: Result<(), DeviceModelError>)
        ensures
            match r {
                Ok(()) => self@.contains_key(device@) && self@[device@].contains_key(register)
                    && self@[device@][register].access == ModbusRegisterAccess::ReadWrite,
                Err(DeviceModelError::UnknownModbusDevice(d)) => !self@.contains_key(device@) && d@
                    == device@,
                Err(DeviceModelError::UnknownModbusRegister { device: d, register: a }) =>
                    self@.contains_key(device@) && !self@[device@].contains_key(register) && d@
                    == device@ && a == register,
                Err(DeviceModelError::ReadOnlyModbusRegister { device: d, register: a }) =>
                    self@.contains_key(device@) && self@[device@].contains_key(register)
                    && self@[device@][register].access == ModbusRegisterAccess::ReadOnly && d@
                    == device@ && a == register,
                Err(_) => false,
            },
    {
        let reg = match self.register(device, register) {
            Ok(reg) => reg,
            Err(e) => {
                return Err(e);
            },
        };
        match reg.access {
            ModbusRegisterAccess::ReadOnly => Err(
                DeviceModelError::ReadOnlyModbusRegister { device: to_owned(device), register },
            ),
            ModbusRegisterAccess::ReadWrite => Ok(()),
        }
    }

    /// Writes a writable register: it takes the JSON form of `value`
    /// (`null` when there is none), which is returned; its type and access
    /// stay. A refused write changes nothing.
    pub fn write(&mut self, device: &str, register: u32, value: Value) -> (r: Result<
        Value,
        DeviceModelError,
    >)
        ensures
            match r {
                Ok(j) => old(self)@.contains_key(device@) && old(self)@[device@].contains_key(register)
                    && old(self)@[device@][register].access == ModbusRegisterAccess::ReadWrite && j@
                    == json_or_null(value@) && final(self)@ == old(self)@.insert(
                    device@,
                    old(self)@[device@].insert(
                        register,
                        RegisterView {
                            value: j@,
                            value_type: old(self)@[device@][register].value_type,
                            access: ModbusRegisterAccess::ReadWrite,
                        },
                    ),
                ),
                Err(DeviceModelError::UnknownModbusDevice(d)) => !old(self)@.contains_key(device@)
                    && d@ == device@ && final(self)@ == old(self)@,
                Err(DeviceModelError::UnknownModbusRegister { device: d, register: a }) => old(
                    self,
                )@.contains_key(device@) && !old(self)@[device@].contains_key(register) && d@
                    == device@ && a == register && final(self)@ == old(self)@,
                Err(DeviceModelError::ReadOnlyModbusRegister { device: d, register: a }) => old(
                    self,
                )@.contains_key(device@) && old(self)@[device@].contains_key(register) && old(
                    self,
                )@[device@][register].access == ModbusRegisterAccess::ReadOnly && d@ == device@
                    && a == register && final(self)@ == old(self)@,
                Err(_) => false,
            },
    {
        match self.assert_writable(device, register) {
            Err(e) => {
                return Err(e);
            },
            Ok(()) => {},
        }
        let ghost before = self@;
        let json = to_json_or_null(&value);
        let mut table = match self.devices.insert(to_owned(device), RegisterTable::new()) {
            Some(t) => t,
            None => RegisterTable::new(),
        };
        assert(table@ == before[device@]);
        let value_type = match table.get(register) {
            Some(reg) => match &reg.value_type {
                Some(t) => Some(t.clone()),
                None => None,
            },
            None => None,
        };
        let stored = ModbusRegister {
            value: json.deep_clone(),
            value_type,
            access: ModbusRegisterAccess::ReadWrite,
        };
        table.insert(register, stored);
        let ghost t2 = table@;
        self.devices.insert(to_owned(device), table);
        assert(self@ =~= before.insert(device@, t2));
        Ok(json)
    }
}

impl Default for ModbusModel {
    /// A model without devices.
    fn default() -> (m: Self)
        ensures
            m@ == Map::<Seq<char>, Map<u32, RegisterView>>::empty(),
    {
        ModbusModel::new()
    }
}

/// Whether a `devices[]` entry declares `section` as a map of registers.
pub open spec fn has_section(item: ValueView, section: Seq<char>) -> bool {
    item matches ValueView::Mapping(entries) && view_lookup(entries, section) matches Some(ValueView::Mapping(_))
}

/// Every register of `m` has access `access`.
pub open spec fn all_access(m: Map<u32, RegisterView>, access: ModbusRegisterAccess) -> bool {
    forall|a: u32| #[trigger] m.contains_key(a) ==> m[a].access == access
}

proof fn lemma_section_entries_access(
    es: Seq<(ValueView, ValueView)>,
    id: Seq<char>,
    section: Seq<char>,
    access: ModbusRegisterAccess,
    regs: Map<u32, RegisterView>,
)
    requires
        all_access(regs, access),
    ensures
        section_entries(es, id, section, access, regs) matches Ok(out) ==> all_access(out, access),
    decreases es.len(),
{
    if es.len() > 0 {
        lemma_section_entries_access(es.drop_last(), id, section, access, regs);
    }
}

proof fn lemma_section_step_access(
    item: ValueView,
    id: Seq<char>,
    section: Seq<char>,
    section_access: ModbusRegisterAccess,
    access: ModbusRegisterAccess,
    regs: Map<u32, RegisterView>,
)
    requires
        all_access(regs, access),
        has_section(item, section) ==> section_access == access,
    ensures
        section_step(item, id, section, section_access, regs) matches Ok(out) ==> all_access(out, access),
{
    match item {
        ValueView::Mapping(entries) => match view_lookup(entries, section) {
            Some(ValueView::Mapping(es)) => {
                lemma_section_entries_access(es, id, section, access, regs);
            },
            _ => {},
        },
        _ => {},
    }
}

proof fn lemma_devices_access(items: Seq<ValueView>, access: ModbusRegisterAccess)
    requires
        access == ModbusRegisterAccess::ReadWrite ==> forall|i: int|
            0 <= i < items.len() ==> !has_section(#[trigger] items[i], "input_registers"@) && !has_section(
                items[i],
                "discrete_inputs"@,
            ),
        access == ModbusRegisterAccess::ReadOnly ==> forall|i: int|
            0 <= i < items.len() ==> !has_section(#[trigger] items[i], "holding_registers"@) && !has_section(
                items[i],
                "coils"@,
            ),
    ensures
        modbus_devices(items) matches Ok(devs) ==> forall|d: Seq<char>|
            #[trigger] devs.contains_key(d) ==> all_access(devs[d], access),
    decreases items.len(),
{
    if items.len() > 0 {
        let init = items.drop_last();
        assert forall|i: int| 0 <= i < init.len() implies #[trigger] init[i] == items[i] by {}
        lemma_devices_access(init, access);
        let item = items.last();
        assert(item == items[items.len() - 1]);
        match modbus_devices(init) {
            Ok(devs) => match item {
                ValueView::Mapping(entries) => match view_lookup(entries, "id"@) {
                    Some(ValueView::Str(id)) => {
                        let regs0 = if devs.contains_key(id) {
                            devs[id]
                        } else {
                            Map::empty()
                        };
                        let rw = ModbusRegisterAccess::ReadWrite;
                        let ro = ModbusRegisterAccess::ReadOnly;
                        lemma_section_step_access(item, id, "holding_registers"@, rw, access, regs0);
                        match section_step(item, id, "holding_registers"@, rw, regs0) {
                            Ok(r1) => {
                                lemma_section_step_access(item, id, "coils"@, rw, access, r1);
                                match section_step(item, id, "coils"@, rw, r1) {
                                    Ok(r2) => {
                                        lemma_section_step_access(item, id, "input_registers"@, ro, access, r2);
                                        match section_step(item, id, "input_registers"@, ro, r2) {
                                            Ok(r3) => {
                                                lemma_section_step_access(
                                                    item,
                                                    id,
                                                    "discrete_inputs"@,
                                                    ro,
                                                    access,
                                                    r3,
                                                );
                                            },
                                            Err(_) => {},
                                        }
                                    },
                                    Err(_) => {},
                                }
                            },
                            Err(_) => {},
                        }
                    },
                    _ => {},
                },
                _ => {},
            },
            Err(_) => {},
        }
    }
}

/// Registers declared under `holding_registers` or `coils` are writable and
/// those under `input_registers` or `discrete_inputs` read-only: when no
/// device entry declares a read-only section, every register of the model
/// is writable, and when none declares a writable section, every register
/// is read-only.
pub proof fn law_modbus_register_access(items: Seq<ValueView>)
    ensures
        (forall|i: int|
            0 <= i < items.len() ==> !has_section(#[trigger] items[i], "input_registers"@) && !has_section(
                items[i],
                "discrete_inputs"@,
            )) ==> (modbus_devices(items) matches Ok(devs) ==> forall|d: Seq<char>, a: u32|
            devs.contains_key(d) && #[trigger] devs[d].contains_key(a) ==> devs[d][a].access
                == ModbusRegisterAccess::ReadWrite),
        (forall|i: int|
            0 <= i < items.len() ==> !has_section(#[trigger] items[i], "holding_registers"@) && !has_section(
                items[i],
                "coils"@,
            )) ==> (modbus_devices(items) matches Ok(devs) ==> forall|d: Seq<char>, a: u32|
            devs.contains_key(d) && #[trigger] devs[d].contains_key(a) ==> devs[d][a].access
                == ModbusRegisterAccess::ReadOnly),
{
    if forall|i: int|
        0 <= i < items.len() ==> !has_section(#[trigger] items[i], "input_registers"@) && !has_section(
            items[i],
            "discrete_inputs"@,
        ) {
        lemma_devices_access(items, ModbusRegisterAccess::ReadWrite);
    }
    if forall|i: int|
        0 <= i < items.len() ==> !has_section(#[trigger] items[i], "holding_registers"@) && !has_section(
            items[i],
            "coils"@,
        ) {
        lemma_devices_access(items, ModbusRegisterAccess::ReadOnly);
    }
}

} // verus!

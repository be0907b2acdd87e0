//! Checking the declaration of one payload field constraint of an MQTT
//! contract: its bounds, and its enum values. The comparisons between
//! numbers are made by the caller, which may hold them as floats, and are
//! handed in as facts; the order of the checks and their messages are
//! decided here.

use vstd::prelude::*;

use crate::mqtt_contract::{field_type_name, MqttConnectionContract, MqttPayloadFieldConstraint, MqttPayloadFieldType};
use crate::text::{byte_len, concat2, push_str, str_byte_len, to_owned};
use crate::value::{Value, ValueView};

verus! {

/// Whether a value has the JSON kind a field constraint declares.
pub open spec fn kind_matches(v: ValueView, t: MqttPayloadFieldType) -> bool {
    match t {
        MqttPayloadFieldType::String => v is Str,
        MqttPayloadFieldType::Integer => v is Int,
        MqttPayloadFieldType::Number => v is Int || v is Float,
        MqttPayloadFieldType::Boolean => v is Bool,
        MqttPayloadFieldType::Object => v is Mapping,
        MqttPayloadFieldType::Array => v is List,
    }
}

pub fn kind_matches_exec(v: &Value, t: MqttPayloadFieldType) -> (b: bool)
    ensures
        b == kind_matches(v@, t),
{
    match t {
        MqttPayloadFieldType::String => matches!(v, Value::Str(_)),
        MqttPayloadFieldType::Integer => matches!(v, Value::Int(_) | Value::UInt(_)),
        MqttPayloadFieldType::Number => matches!(v, Value::Int(_) | Value::UInt(_) | Value::Float(_)),
        MqttPayloadFieldType::Boolean => matches!(v, Value::Bool(_)),
        MqttPayloadFieldType::Object => matches!(v, Value::Mapping(_)),
        MqttPayloadFieldType::Array => matches!(v, Value::List(_)),
    }
}

/// The comparisons between numbers that checking a constraint needs, made
/// by the caller.
pub struct ConstraintFacts {
    /// Whether the minimum, written as a float, lies beyond
    /// ±9007199254740991.
    pub minimum_beyond_exact: bool,
    /// Whether the maximum, written as a float, lies beyond
    /// ±9007199254740991.
    pub maximum_beyond_exact: bool,
    /// How the minimum compares with the maximum (-1, 0 or 1), or `None`
    /// when an integer and a float beyond the exact range meet.
    pub bounds_order: Option<i8>,
    /// The JSON text of each enum value.
    pub enum_texts: Vec<String>,
    /// For each numeric enum value: whether it equals an earlier numeric one.
    pub enum_repeats_number: Vec<bool>,
    /// For each numeric enum value: whether comparing it with a bound is
    /// ambiguous.
    pub enum_ambiguous: Vec<bool>,
    /// For each numeric enum value: whether it lies below the minimum or
    /// above the maximum.
    pub enum_out_of_range: Vec<bool>,
}

/// The most enum values a field may declare.
pub const MAX_ENUM_VALUES: usize = 128;

/// The most bytes the enum values of a field may take together.
pub const MAX_ENUM_VALUE_BYTES: usize = 16384;

pub open spec fn ambiguous_reason() -> Seq<char> {
    "cannot compare integer and floating-point values outside ±9007199254740991; use consistent integer notation for exact large values"@
}

pub open spec fn flag_at(flags: Seq<bool>, i: int) -> bool {
    0 <= i < flags.len() && flags[i]
}

pub open spec fn text_at(texts: Seq<String>, i: int) -> Seq<char> {
    if 0 <= i < texts.len() {
        texts[i]@
    } else {
        Seq::empty()
    }
}

pub open spec fn is_number(v: ValueView) -> bool {
    v is Int || v is Float
}

/// What is wrong with one bound.
pub open spec fn bound_problem(
    fp: Seq<char>,
    name: Seq<char>,
    t: MqttPayloadFieldType,
    bound: Option<Value>,
    beyond_exact: bool,
) -> Option<Seq<char>> {
    match bound {
        None => None,
        Some(b) => if !(t == MqttPayloadFieldType::Integer || t == MqttPayloadFieldType::Number) {
            Some(fp + "."@ + name + " is only supported for integer or number fields"@)
        } else if t == MqttPayloadFieldType::Integer && !(b@ is Int) {
            Some(fp + "."@ + name + " must be an integer"@)
        } else if !(b@ is Int) && beyond_exact {
            Some(
                fp + "."@ + name
                    + " floating-point bounds must be within ±9007199254740991; use an integer literal for larger exact bounds"@,
            )
        } else {
            None
        },
    }
}

/// The bytes a scalar enum value takes, from its JSON text for a number.
pub open spec fn scalar_size(v: ValueView, text: Seq<char>) -> Option<int> {
    match v {
        ValueView::Str(s) => Some(byte_len(s) as int),
        ValueView::Int(_) => Some(byte_len(text) as int),
        ValueView::Float(_) => Some(byte_len(text) as int),
        ValueView::Bool(_) => Some(1),
        _ => None,
    }
}

/// The first problem of the kinds and sizes of the enum values from `i` on,
/// `used` bytes having been taken by those before.
pub open spec fn enum_scan_problem(
    fp: Seq<char>,
    c: MqttPayloadFieldConstraint,
    f: ConstraintFacts,
    i: int,
    used: int,
) -> Option<Seq<char>>
    decreases c.enum_values@.len() - i,
{
    if i < 0 || i >= c.enum_values@.len() {
        None
    } else {
        let v = c.enum_values@[i]@;
        if !kind_matches(v, c.field_type) {
            Some(
                fp + ".enum value "@ + text_at(f.enum_texts@, i) + " does not match declared type "@
                    + field_type_name(c.field_type),
            )
        } else {
            match scalar_size(v, text_at(f.enum_texts@, i)) {
                None => Some(fp + ".enum is only supported for scalar string, number, or boolean fields"@),
                Some(size) => if used + size > MAX_ENUM_VALUE_BYTES {
                    Some(fp + ".enum values must use at most 16384 bytes"@)
                } else {
                    enum_scan_problem(fp, c, f, i + 1, used + size)
                },
            }
        }
    }
}

/// What is wrong with the `i`-th enum value against those before it and
/// the bounds.
pub open spec fn enum_value_problem(
    fp: Seq<char>,
    c: MqttPayloadFieldConstraint,
    f: ConstraintFacts,
    i: int,
) -> Option<Seq<char>> {
    let v = c.enum_values@[i]@;
    let text = text_at(f.enum_texts@, i);
    let repeated = if is_number(v) {
        flag_at(f.enum_repeats_number@, i)
    } else {
        exists|j: int| 0 <= j < i && c.enum_values@[j]@ == v
    };
    if repeated {
        Some(fp + ".enum contains duplicate value "@ + text)
    } else if is_number(v) && flag_at(f.enum_ambiguous@, i) {
        Some(fp + ".enum value "@ + text + " "@ + ambiguous_reason())
    } else if is_number(v) && flag_at(f.enum_out_of_range@, i) {
        Some(fp + ".enum value "@ + text + " is outside the declared range"@)
    } else {
        None
    }
}

/// The first problem of the first `n` enum values.
pub open spec fn first_enum_value_problem(
    fp: Seq<char>,
    c: MqttPayloadFieldConstraint,
    f: ConstraintFacts,
    n: int,
) -> Option<Seq<char>>
    decreases n,
{
    if n <= 0 {
        None
    } else {
        match first_enum_value_problem(fp, c, f, n - 1) {
            Some(p) => Some(p),
            None => enum_value_problem(fp, c, f, n - 1),
        }
    }
}

/// The first problem of a field constraint whose path is `fp`: its
/// minimum, then its maximum, their order, the number of enum values,
/// their kinds and sizes, and then each enum value in turn.
pub open spec fn constraint_problem(fp: Seq<char>, c: MqttPayloadFieldConstraint, f: ConstraintFacts) -> Option<
    Seq<char>,
> {
    match bound_problem(fp, "minimum"@, c.field_type, c.minimum, f.minimum_beyond_exact) {
        Some(p) => Some(p),
        None => match bound_problem(fp, "maximum"@, c.field_type, c.maximum, f.maximum_beyond_exact) {
            Some(p) => Some(p),
            None => if c.minimum is Some && c.maximum is Some && f.bounds_order == Some(1i8) {
                Some(fp + ".minimum must be less than or equal to maximum"@)
            } else if c.minimum is Some && c.maximum is Some && f.bounds_order is None {
                Some(fp + " "@ + ambiguous_reason())
            } else if c.enum_values@.len() > MAX_ENUM_VALUES {
                Some(fp + ".enum must contain at most 128 values"@)
            } else {
                match enum_scan_problem(fp, c, f, 0, 0) {
                    Some(p) => Some(p),
                    None => first_enum_value_problem(fp, c, f, c.enum_values@.len() as int),
                }
            },
        },
    }
}

fn bound_check(
    fp: &str,
    name: &str,
    t: MqttPayloadFieldType,
    bound: &Option<Value>,
    beyond_exact: bool,
) -> (r: Option<String>)
    ensures
        match r {
            Some(m) => bound_problem(fp@, name@, t, *bound, beyond_exact) == Some(m@),
            None => bound_problem(fp@, name@, t, *bound, beyond_exact) is None,
        },
{
    match bound {
        None => None,
        Some(b) => {
            let is_int = matches!(b, Value::Int(_) | Value::UInt(_));
            let mut m = concat2(fp, ".");
            push_str(&mut m, name);
            if !t.is_numeric() {
                push_str(&mut m, " is only supported for integer or number fields");
                Some(m)
            } else if t == MqttPayloadFieldType::Integer && !is_int {
                push_str(&mut m, " must be an integer");
                Some(m)
            } else if !is_int && beyond_exact {
                push_str(
                    &mut m,
                    " floating-point bounds must be within ±9007199254740991; use an integer literal for larger exact bounds",
                );
                Some(m)
            } else {
                None
            }
        },
    }
}

fn scalar_size_exec(v: &Value, text: &String) -> (r: Option<usize>)
    ensures
        match r {
            Some(n) => scalar_size(v@, text@) == Some(n as int),
            None => scalar_size(v@, text@) is None,
        },
{
    match v {
        Value::Str(s) => Some(str_byte_len(s.as_str())),
        Value::Int(_) | Value::UInt(_) | Value::Float(_) => Some(str_byte_len(text.as_str())),
        Value::Bool(_) => Some(1),
        _ => None,
    }
}

proof fn lemma_scan_step(fp: Seq<char>, c: MqttPayloadFieldConstraint, f: ConstraintFacts, i: int, used: int)
    requires
        0 <= i < c.enum_values@.len(),
        kind_matches(c.enum_values@[i]@, c.field_type),
        scalar_size(c.enum_values@[i]@, text_at(f.enum_texts@, i)) is Some,
        used + scalar_size(c.enum_values@[i]@, text_at(f.enum_texts@, i))->Some_0 <= MAX_ENUM_VALUE_BYTES,
    ensures
        enum_scan_problem(fp, c, f, i, used) == enum_scan_problem(
            fp,
            c,
            f,
            i + 1,
            used + scalar_size(c.enum_values@[i]@, text_at(f.enum_texts@, i))->Some_0,
        ),
{
}

proof fn lemma_first_enum_stable(fp: Seq<char>, c: MqttPayloadFieldConstraint, f: ConstraintFacts, m: int, n: int)
    requires
        0 <= m <= n,
        first_enum_value_problem(fp, c, f, m) is Some,
    ensures
        first_enum_value_problem(fp, c, f, n) == first_enum_value_problem(fp, c, f, m),
    decreases n - m,
{
    if n > m {
        lemma_first_enum_stable(fp, c, f, m, n - 1);
    }
}

fn get_text(texts: &Vec<String>, i: usize) -> (r: String)
    ensures
        r@ == text_at(texts@, i as int),
{
    if i < texts.len() {
        texts[i].clone()
    } else {
        String::new()
    }
}

fn get_flag(flags: &Vec<bool>, i: usize) -> (r: bool)
    ensures
        r == flag_at(flags@, i as int),
{
    i < flags.len() && flags[i]
}

/// Checks the declaration of one field constraint whose path is `fp`; the
/// first problem found is returned.
pub fn constraint_declaration_problem(fp: &str, c: &MqttPayloadFieldConstraint, f: &ConstraintFacts) -> (r: Option<
    String,
>)
    ensures
        match r {
            Some(m) => constraint_problem(fp@, *c, *f) == Some(m@),
            None => constraint_problem(fp@, *c, *f) is None,
        },
{
    if let Some(m) = bound_check(fp, "minimum", c.field_type, &c.minimum, f.minimum_beyond_exact) {
        return Some(m);
    }
    if let Some(m) = bound_check(fp, "maximum", c.field_type, &c.maximum, f.maximum_beyond_exact) {
        return Some(m);
    }
    if c.minimum.is_some() && c.maximum.is_some() {
        match f.bounds_order {
            Some(o) => {
                if o == 1 {
                    return Some(concat2(fp, ".minimum must be less than or equal to maximum"));
                }
            },
            None => {
                let mut m = concat2(fp, " ");
                push_str(
                    &mut m,
                    "cannot compare integer and floating-point values outside ±9007199254740991; use consistent integer notation for exact large values",
                );
                return Some(m);
            },
        }
    }
    let n = c.enum_values.len();
    if n > MAX_ENUM_VALUES {
        return Some(concat2(fp, ".enum must contain at most 128 values"));
    }
    let ghost rest = match enum_scan_problem(fp@, *c, *f, 0, 0) {
        Some(p) => Some(p),
        None => first_enum_value_problem(fp@, *c, *f, n as int),
    };
    assert(constraint_problem(fp@, *c, *f) == rest);
    let mut i: usize = 0;
    let mut used: usize = 0;
    while i < n
        invariant
            i <= n,
            n == c.enum_values@.len(),
            used <= MAX_ENUM_VALUE_BYTES,
            constraint_problem(fp@, *c, *f) == rest,
            rest == match enum_scan_problem(fp@, *c, *f, 0, 0) {
                Some(p) => Some(p),
                None => first_enum_value_problem(fp@, *c, *f, n as int),
            },
            enum_scan_problem(fp@, *c, *f, 0, 0) == enum_scan_problem(fp@, *c, *f, i as int, used as int),
        decreases n - i,
    {
        let v = &c.enum_values[i];
        let text = get_text(&f.enum_texts, i);
        if !kind_matches_exec(v, c.field_type) {
            let mut m = concat2(fp, ".enum value ");
            push_str(&mut m, text.as_str());
            push_str(&mut m, " does not match declared type ");
            push_str(&mut m, c.field_type.as_str());
            return Some(m);
        }
        match scalar_size_exec(v, &text) {
            None => {
                return Some(concat2(fp, ".enum is only supported for scalar string, number, or boolean fields"));
            },
            Some(size) => {
                if size > MAX_ENUM_VALUE_BYTES - used {
                    return Some(concat2(fp, ".enum values must use at most 16384 bytes"));
                }
                proof {
                    lemma_scan_step(fp@, *c, *f, i as int, used as int);
                }
                used = used + size;
            },
        }
        i = i + 1;
    }
    let mut i: usize = 0;
    while i < n
        invariant
            i <= n,
            n == c.enum_values@.len(),
            enum_scan_problem(fp@, *c, *f, 0, 0) is None,
            first_enum_value_problem(fp@, *c, *f, i as int) is None,
            constraint_problem(fp@, *c, *f) == first_enum_value_problem(fp@, *c, *f, n as int),
        decreases n - i,
    {
        let v = &c.enum_values[i];
        let text = get_text(&f.enum_texts, i);
        let number = matches!(v, Value::Int(_) | Value::UInt(_) | Value::Float(_));
        let repeated = if number {
            get_flag(&f.enum_repeats_number, i)
        } else {
            let mut j: usize = 0;
            let mut found = false;
            while j < i
                invariant
                    j <= i < n,
                    n == c.enum_values@.len(),
                    found == exists|k: int| 0 <= k < j && c.enum_values@[k]@ == v@,
                decreases i - j,
            {
                if c.enum_values[j].equals(v) {
                    found = true;
                }
                j = j + 1;
            }
            found
        };
        let mut problem: Option<String> = None;
        if repeated {
            let mut m = concat2(fp, ".enum contains duplicate value ");
            push_str(&mut m, text.as_str());
            problem = Some(m);
        } else if number && get_flag(&f.enum_ambiguous, i) {
            let mut m = concat2(fp, ".enum value ");
            push_str(&mut m, text.as_str());
            push_str(&mut m, " ");
            push_str(
                &mut m,
                "cannot compare integer and floating-point values outside ±9007199254740991; use consistent integer notation for exact large values",
            );
            problem = Some(m);
        } else if number && get_flag(&f.enum_out_of_range, i) {
            let mut m = concat2(fp, ".enum value ");
            push_str(&mut m, text.as_str());
            push_str(&mut m, " is outside the declared range");
            problem = Some(m);
        }
        assert(match problem {
            Some(m) => enum_value_problem(fp@, *c, *f, i as int) == Some(m@),
            None => enum_value_problem(fp@, *c, *f, i as int) is None,
        });
        if let Some(m) = problem {
            proof {
                lemma_first_enum_stable(fp@, *c, *f, i + 1, n as int);
            }
            return Some(m);
        }
        i = i + 1;
    }
    None
}

/// For each contract, the outcome of checking each declared field
/// constraint, fields in key order, its path being
/// `mqtt.contracts[<name>].payload.fields.<field>`; `facts[i][j]` are the
/// number comparisons for the `j`-th field of contract `i`, and a field
/// without facts is checked against none.
pub fn constraint_verdicts(contracts: &Vec<MqttConnectionContract>, facts: &Vec<Vec<ConstraintFacts>>) -> (r: Vec<
    Vec<Option<String>>,
>)
    ensures
        r@.len() == contracts@.len(),
        forall|i: int|
            0 <= i < contracts@.len() ==> (#[trigger] r@[i])@.len() == contracts@[i].payload.fields.key_seq().len(),
        forall|i: int, j: int|
            0 <= i < contracts@.len() && 0 <= j < contracts@[i].payload.fields.key_seq().len() && i < facts@.len()
                && j < facts@[i]@.len() ==> opt_text(#[trigger] r@[i]@[j]) == constraint_problem(
                "mqtt.contracts["@ + contracts@[i].name@ + "].payload.fields."@
                    + contracts@[i].payload.fields.key_seq()[j],
                contracts@[i].payload.fields@[contracts@[i].payload.fields.key_seq()[j]],
                facts@[i]@[j],
            ),
{
    let mut r: Vec<Vec<Option<String>>> = Vec::new();
    let mut i: usize = 0;
    while i < contracts.len()
        invariant
            i <= contracts.len(),
            r@.len() == i,
            forall|a: int| 0 <= a < i ==> (#[trigger] r@[a])@.len() == contracts@[a].payload.fields.key_seq().len(),
            forall|a: int, b: int|
                0 <= a < i && 0 <= b < contracts@[a].payload.fields.key_seq().len() && a < facts@.len() && b
                    < facts@[a]@.len() ==> opt_text(#[trigger] r@[a]@[b]) == constraint_problem(
                    "mqtt.contracts["@ + contracts@[a].name@ + "].payload.fields."@
                        + contracts@[a].payload.fields.key_seq()[b],
                    contracts@[a].payload.fields@[contracts@[a].payload.fields.key_seq()[b]],
                    facts@[a]@[b],
                ),
        decreases contracts.len() - i,
    {
        let contract = &contracts[i];
        let fields = &contract.payload.fields;
        proof {
            use_type_invariant(fields);
            fields.lemma_wf();
        }
        let mut path = concat2("mqtt.contracts[", contract.name.as_str());
        push_str(&mut path, "].payload.fields.");
        let mut row: Vec<Option<String>> = Vec::new();
        let mut j: usize = 0;
        while j < fields.len()
            invariant
                j <= fields.entry_seq().len(),
                fields == &contracts@[i as int].payload.fields,
                i < contracts@.len(),
                path@ == "mqtt.contracts["@ + contracts@[i as int].name@ + "].payload.fields."@,
                row@.len() == j,
                fields.key_seq().len() == fields.entry_seq().len(),
                forall|k: int|
                    0 <= k < fields.entry_seq().len() ==> fields@.contains_key(
                        #[trigger] fields.entry_seq()[k].0,
                    ) && fields@[fields.entry_seq()[k].0] == fields.entry_seq()[k].1,
                forall|b: int|
                    0 <= b < j && (i as int) < facts@.len() && b < facts@[i as int]@.len() ==> opt_text(
                        #[trigger] row@[b],
                    ) == constraint_problem(
                        "mqtt.contracts["@ + contracts@[i as int].name@ + "].payload.fields."@
                            + fields.key_seq()[b],
                        fields@[fields.key_seq()[b]],
                        facts@[i as int]@[b],
                    ),
            decreases fields.entry_seq().len() - j,
        {
            let key = fields.key_at(j);
            let constraint = fields.value_at(j);
            assert(fields.key_seq()[j as int] == fields.entry_seq()[j as int].0);
            let fp = concat2(path.as_str(), key.as_str());
            let verdict = if i < facts.len() && j < facts[i].len() {
                constraint_declaration_problem(fp.as_str(), constraint, &facts[i][j])
            } else {
                None
            };
            row.push(verdict);
            j = j + 1;
        }
        r.push(row);
        i = i + 1;
    }
    r
}

pub open spec fn opt_text(o: Option<String>) -> Option<Seq<char>> {
    match o {
        Some(s) => Some(s@),
        None => None,
    }
}

} // verus!

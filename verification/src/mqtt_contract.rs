//! MQTT connection contracts of an adapter: each maps a command topic
//! template to a state topic template through the `{device_id}` placeholder
//! and declares the payload fields it accepts. Validation reports the first
//! problem, contract by contract, in document order.

use vstd::prelude::*;

use crate::adapter::{appears_before, first_problem, lemma_first_problem_stable, repeats_earlier, texts};
use crate::checks::{
    invalid_mqtt_contract_topic, mqtt_topic_placeholders, sanitize_diagnostic_value, sanitized,
    topic_placeholders, valid_contract_name, validate_mqtt_contract_name,
};
use crate::scenario::{mqtt_topic_problem, MqttTopic, ScenarioError};
use crate::strmap::StrMap;
use crate::text::{
    chars_of, compare_chars, concat2, str_eq, has_control, is_blank, lex_lt, push_str, seq_has_control,
    seq_is_blank, to_owned,
};
use crate::value::Value;

verus! {

/// The JSON value kinds a payload field may declare.
#[derive(Debug, Clone, Copy, PartialEq, Eq, Structural)]
pub enum MqttPayloadFieldType {
    String,
    Integer,
    Number,
    Boolean,
    Object,
    Array,
}

pub open spec fn field_type_name(t: MqttPayloadFieldType) -> Seq<char> {
    match t {
        MqttPayloadFieldType::String => "string"@,
        MqttPayloadFieldType::Integer => "integer"@,
        MqttPayloadFieldType::Number => "number"@,
        MqttPayloadFieldType::Boolean => "boolean"@,
        MqttPayloadFieldType::Object => "object"@,
        MqttPayloadFieldType::Array => "array"@,
    }
}

impl MqttPayloadFieldType {
    /// The lowercase name the contract file uses.
    pub fn as_str(self) -> (s: &'static str)
        ensures
            s@ == field_type_name(self),
    {
        match self {
            MqttPayloadFieldType::String => "string",
            MqttPayloadFieldType::Integer => "integer",
            MqttPayloadFieldType::Number => "number",
            MqttPayloadFieldType::Boolean => "boolean",
            MqttPayloadFieldType::Object => "object",
            MqttPayloadFieldType::Array => "array",
        }
    }

    /// Whether the kind is a number: `integer` or `number`.
    pub fn is_numeric(self) -> (b: bool)
        ensures
            b == (self == MqttPayloadFieldType::Integer || self == MqttPayloadFieldType::Number),
    {
        match self {
            MqttPayloadFieldType::Integer | MqttPayloadFieldType::Number => true,
            _ => false,
        }
    }
}

/// What a payload field must hold: its kind, an optional closed set of
/// values and optional numeric bounds.
pub struct MqttPayloadFieldConstraint {
    pub field_type: MqttPayloadFieldType,
    pub enum_values: Vec<Value>,
    pub minimum: Option<Value>,
    pub maximum: Option<Value>,
}

/// The payload fields a contract requires, allows, and constrains.
pub struct MqttPayloadExpectation {
    pub required_fields: Vec<String>,
    pub optional_fields: Vec<String>,
    pub fields: StrMap<MqttPayloadFieldConstraint>,
}

/// One MQTT connection contract of an adapter.
pub struct MqttConnectionContract {
    pub name: String,
    pub adapter: String,
    pub command_topic: String,
    pub state_topic: String,
    pub device_id_from_topic: String,
    pub payload: MqttPayloadExpectation,
}

/// The adapter a contract names when it names none.
pub fn default_mqtt_adapter() -> (s: String)
    ensures
        s@ == "mqtt_v3_qos0_subset"@,
{
    to_owned("mqtt_v3_qos0_subset")
}

/// The device-id strategy a contract names when it names none.
pub fn default_device_id_strategy() -> (s: String)
    ensures
        s@ == "placeholder:{device_id}"@,
{
    to_owned("placeholder:{device_id}")
}

/// A contract as the checks read it; `fields` lists the constrained field
/// names in key order.
pub struct MqttContractView {
    pub name: Seq<char>,
    pub adapter: Seq<char>,
    pub command_topic: Seq<char>,
    pub state_topic: Seq<char>,
    pub device_id_from_topic: Seq<char>,
    pub required: Seq<Seq<char>>,
    pub optional: Seq<Seq<char>>,
    pub fields: Seq<Seq<char>>,
    /// The declared field constraints, by field.
    pub constraints: Map<Seq<char>, MqttPayloadFieldConstraint>,
}

impl View for MqttConnectionContract {
    type V = MqttContractView;

    open spec fn view(&self) -> MqttContractView {
        MqttContractView {
            name: self.name@,
            adapter: self.adapter@,
            command_topic: self.command_topic@,
            state_topic: self.state_topic@,
            device_id_from_topic: self.device_id_from_topic@,
            required: texts(self.payload.required_fields@),
            optional: texts(self.payload.optional_fields@),
            fields: self.payload.fields.key_seq(),
            constraints: self.payload.fields@,
        }
    }
}

// ---------------------------------------------------------------------------
// Payload expectations
// ---------------------------------------------------------------------------

pub open spec fn payload_path(name: Seq<char>) -> Seq<char> {
    "mqtt.contracts["@ + name + "].payload"@
}

/// The problem of the `k`-th name of a field-name list.
pub open spec fn name_check(path: Seq<char>, list: Seq<char>, names: Seq<Seq<char>>, k: int) -> Option<
    Seq<char>,
> {
    let f = names[k];
    if is_blank(f) {
        Some(path + "."@ + list + " contains an empty field name"@)
    } else if has_control(f) {
        Some(path + "."@ + list + " field names must not contain control characters"@)
    } else if repeats_earlier(names, k) {
        Some(path + "."@ + list + " contains duplicate field "@ + f)
    } else {
        None
    }
}

pub open spec fn name_checker(path: Seq<char>, list: Seq<char>, names: Seq<Seq<char>>) -> spec_fn(
    int,
) -> Option<Seq<char>> {
    |k: int| name_check(path, list, names, k)
}

/// The least item, in code-point order, among those that satisfy `p`.
pub open spec fn least_such(items: Seq<Seq<char>>, p: spec_fn(Seq<char>) -> bool) -> Option<
    Seq<char>,
>
    decreases items.len(),
{
    if items.len() == 0 {
        None
    } else {
        let x = items.last();
        match least_such(items.drop_last(), p) {
            None => if p(x) {
                Some(x)
            } else {
                None
            },
            Some(m) => if p(x) && lex_lt(x, m) {
                Some(x)
            } else {
                Some(m)
            },
        }
    }
}

pub open spec fn listed_in(list: Seq<Seq<char>>) -> spec_fn(Seq<char>) -> bool {
    |f: Seq<char>| list.contains(f)
}

pub open spec fn missing_from(list: Seq<Seq<char>>) -> spec_fn(Seq<char>) -> bool {
    |f: Seq<char>| !list.contains(f)
}

pub open spec fn verdict_views(v: Seq<Option<String>>) -> Seq<Option<Seq<char>>> {
    v.map_values(|o: Option<String>| match o {
        Some(s) => Some(s@),
        None => None,
    })
}

/// The verdict on the constraint of field `j`, where one was given.
pub open spec fn verdict_at(verdicts: Seq<Option<Seq<char>>>, j: int) -> Option<Seq<char>> {
    if 0 <= j < verdicts.len() {
        verdicts[j]
    } else {
        None
    }
}

/// The problem of the `j`-th constrained field.
pub open spec fn field_check(
    path: Seq<char>,
    c: MqttContractView,
    verdicts: Seq<Option<Seq<char>>>,
    j: int,
) -> Option<Seq<char>> {
    let f = c.fields[j];
    if is_blank(f) {
        Some(path + ".fields contains an empty field name"@)
    } else if has_control(f) {
        Some(path + ".fields field names must not contain control characters"@)
    } else if !c.required.contains(f) && !c.optional.contains(f) {
        Some(path + ".fields."@ + f + " must be listed in required_fields or optional_fields"@)
    } else {
        verdict_at(verdicts, j)
    }
}

pub open spec fn field_checker(
    path: Seq<char>,
    c: MqttContractView,
    verdicts: Seq<Option<Seq<char>>>,
) -> spec_fn(int) -> Option<Seq<char>> {
    |j: int| field_check(path, c, verdicts, j)
}

/// The first problem of a contract's payload expectation. `verdicts[j]` is
/// the outcome of checking the constraint of the `j`-th field, which rests
/// on floating-point comparisons made elsewhere.
pub open spec fn payload_problem(c: MqttContractView, verdicts: Seq<Option<Seq<char>>>) -> Option<
    Seq<char>,
> {
    let path = payload_path(c.name);
    match first_problem(c.required.len(), name_checker(path, "required_fields"@, c.required)) {
        Some(p) => Some(p),
        None => match first_problem(
            c.optional.len(),
            name_checker(path, "optional_fields"@, c.optional),
        ) {
            Some(p) => Some(p),
            None => match least_such(c.required, listed_in(c.optional)) {
                Some(f) => Some(path + ".fields."@ + f + " cannot be both required and optional"@),
                None => match least_such(c.optional, missing_from(c.fields)) {
                    Some(f) => Some(
                        path + ".optional_fields contains "@ + f + ", but "@ + path + ".fields."@ + f
                            + " is not declared"@,
                    ),
                    None => first_problem(c.fields.len(), field_checker(path, c, verdicts)),
                },
            },
        },
    }
}

fn names_problem(path: &str, list: &str, names: &Vec<String>) -> (r: Option<String>)
    ensures
        match r {
            Some(m) => first_problem(names.len() as nat, name_checker(path@, list@, texts(names@)))
                == Some(m@),
            None => first_problem(names.len() as nat, name_checker(path@, list@, texts(names@)))
                is None,
        },
{
    let ghost ns = texts(names@);
    let ghost check = name_checker(path@, list@, ns);
    let mut head = concat2(path, ".");
    push_str(&mut head, list);
    let mut k: usize = 0;
    while k < names.len()
        invariant
            k <= names.len(),
            ns == texts(names@),
            check == name_checker(path@, list@, ns),
            head@ == path@ + "."@ + list@,
            first_problem(k as nat, check) is None,
        decreases names.len() - k,
    {
        let f = names[k].as_str();
        assert(ns[k as int] == f@);
        let chars = chars_of(f);
        let mut problem: Option<String> = None;
        if seq_is_blank(&chars) {
            let mut m = head.clone();
            push_str(&mut m, " contains an empty field name");
            problem = Some(m);
        } else if seq_has_control(&chars) {
            let mut m = head.clone();
            push_str(&mut m, " field names must not contain control characters");
            problem = Some(m);
        } else if appears_before(names, k, f) {
            proof {
                let j = choose|j: int| 0 <= j < k && names@[j]@ == f@;
                assert(ns[j] == ns[k as int]);
            }
            let mut m = head.clone();
            push_str(&mut m, " contains duplicate field ");
            push_str(&mut m, f);
            problem = Some(m);
        } else {
            proof {
                assert forall|j: int| 0 <= j < k implies ns[j] != ns[k as int] by {
                    assert(ns[j] == names@[j]@);
                }
            }
        }
        match problem {
            Some(m) => {
                assert(check(k as int) == Some(m@));
                proof {
                    lemma_first_problem_stable((k + 1) as nat, ns.len(), check);
                }
                return Some(m);
            },
            None => {
                assert(check(k as int) is None);
            },
        }
        k = k + 1;
    }
    None
}

/// Position of the least item, in code-point order, among those marked.
fn least_marked(items: &Vec<String>, marks: &Vec<bool>, Ghost(p): Ghost<spec_fn(Seq<char>) -> bool>) -> (r:
    Option<usize>)
    requires
        marks.len() == items.len(),
        forall|i: int| 0 <= i < items.len() ==> marks@[i] == p(#[trigger] items@[i]@),
    ensures
        match r {
            Some(b) => b < items.len() && least_such(texts(items@), p) == Some(items@[b as int]@),
            None => least_such(texts(items@), p) is None,
        },
{
    let ghost all = texts(items@);
    let mut best: Option<usize> = None;
    let mut best_chars: Vec<char> = Vec::new();
    let mut i: usize = 0;
    assert(all.take(0) =~= Seq::<Seq<char>>::empty());
    while i < items.len()
        invariant
            i <= items.len(),
            marks.len() == items.len(),
            all == texts(items@),
            forall|q: int| 0 <= q < items.len() ==> marks@[q] == p(#[trigger] items@[q]@),
            match least_such(all.take(i as int), p) {
                None => best is None,
                Some(m) => best matches Some(b) && b < i && items@[b as int]@ == m && best_chars@
                    == m,
            },
        decreases items.len() - i,
    {
        let ghost prefix = all.take(i + 1);
        assert(prefix.drop_last() =~= all.take(i as int));
        assert(prefix.last() == items@[i as int]@);
        if marks[i] {
            let c = chars_of(items[i].as_str());
            match best {
                None => {
                    best = Some(i);
                    best_chars = c;
                },
                Some(_) => {
                    if compare_chars(&c, &best_chars) < 0 {
                        best = Some(i);
                        best_chars = c;
                    }
                },
            }
        }
        i = i + 1;
    }
    assert(all.take(items.len() as int) =~= all);
    best
}

/// Whether `items` holds `s`.
fn listed(items: &Vec<String>, s: &str) -> (r: bool)
    ensures
        r == texts(items@).contains(s@),
{
    let r = appears_before(items, items.len(), s);
    proof {
        if r {
            let j = choose|j: int| 0 <= j < items.len() && items@[j]@ == s@;
            assert(texts(items@)[j] == s@);
        }
        if texts(items@).contains(s@) {
            let j = choose|j: int| 0 <= j < texts(items@).len() && texts(items@)[j] == s@;
            assert(items@[j]@ == s@);
        }
    }
    r
}

/// The first problem of a contract's payload expectation; `verdicts[j]`
/// is the outcome of checking the constraint of the `j`-th field.
#[verifier::loop_isolation(false)]
fn payload_problem_of(contract: &MqttConnectionContract, verdicts: &Vec<Option<String>>) -> (r: Option<
    String,
>)
    ensures
        match r {
            Some(m) => payload_problem(contract@, verdict_views(verdicts@)) == Some(m@),
            None => payload_problem(contract@, verdict_views(verdicts@)) is None,
        },
{
    let ghost c = contract@;
    let ghost vs = verdict_views(verdicts@);
    let payload = &contract.payload;
    let mut path = concat2("mqtt.contracts[", contract.name.as_str());
    push_str(&mut path, "].payload");
    assert(path@ == payload_path(c.name));
    match names_problem(path.as_str(), "required_fields", &payload.required_fields) {
        Some(m) => {
            return Some(m);
        },
        None => {},
    }
    match names_problem(path.as_str(), "optional_fields", &payload.optional_fields) {
        Some(m) => {
            return Some(m);
        },
        None => {},
    }
    let mut marks: Vec<bool> = Vec::new();
    let mut i: usize = 0;
    while i < payload.required_fields.len()
        invariant
            i <= payload.required_fields.len(),
            marks.len() == i,
            forall|q: int|
                0 <= q < i ==> marks@[q] == listed_in(c.optional)(
                    #[trigger] payload.required_fields@[q]@,
                ),
        decreases payload.required_fields.len() - i,
    {
        marks.push(listed(&payload.optional_fields, payload.required_fields[i].as_str()));
        i = i + 1;
    }
    match least_marked(&payload.required_fields, &marks, Ghost(listed_in(c.optional))) {
        Some(b) => {
            let mut m = path.clone();
            push_str(&mut m, ".fields.");
            push_str(&mut m, payload.required_fields[b].as_str());
            push_str(&mut m, " cannot be both required and optional");
            return Some(m);
        },
        None => {},
    }
    proof {
        use_type_invariant(&payload.fields);
        payload.fields.lemma_wf();
    }
    let mut marks: Vec<bool> = Vec::new();
    let mut i: usize = 0;
    while i < payload.optional_fields.len()
        invariant
            i <= payload.optional_fields.len(),
            marks.len() == i,
            forall|q: int|
                0 <= q < i ==> marks@[q] == missing_from(c.fields)(
                    #[trigger] payload.optional_fields@[q]@,
                ),
        decreases payload.optional_fields.len() - i,
    {
        let f = payload.optional_fields[i].as_str();
        let present = payload.fields.contains_key(f);
        proof {
            if present {
                let j = choose|j: int|
                    0 <= j < payload.fields.entry_seq().len() && payload.fields.entry_seq()[j].0
                        == f@;
                assert(c.fields[j] == f@);
            }
            if c.fields.contains(f@) {
                let j = choose|j: int| 0 <= j < c.fields.len() && c.fields[j] == f@;
                assert(payload.fields.entry_seq()[j].0 == f@);
            }
        }
        marks.push(!present);
        i = i + 1;
    }
    match least_marked(&payload.optional_fields, &marks, Ghost(missing_from(c.fields))) {
        Some(b) => {
            let f = payload.optional_fields[b].as_str();
            let mut m = path.clone();
            push_str(&mut m, ".optional_fields contains ");
            push_str(&mut m, f);
            push_str(&mut m, ", but ");
            push_str(&mut m, path.as_str());
            push_str(&mut m, ".fields.");
            push_str(&mut m, f);
            push_str(&mut m, " is not declared");
            return Some(m);
        },
        None => {},
    }
    let ghost check = field_checker(path@, c, vs);
    let n = payload.fields.len();
    let mut j: usize = 0;
    while j < n
        invariant
            j <= n,
            n == c.fields.len(),
            check == field_checker(path@, c, vs),
            first_problem(j as nat, check) is None,
        decreases n - j,
    {
        let f = payload.fields.key_at(j).as_str();
        assert(f@ == c.fields[j as int]);
        let chars = chars_of(f);
        if seq_is_blank(&chars) {
            let mut m = path.clone();
            push_str(&mut m, ".fields contains an empty field name");
            proof {
                lemma_first_problem_stable((j + 1) as nat, c.fields.len(), check);
            }
            return Some(m);
        }
        if seq_has_control(&chars) {
            let mut m = path.clone();
            push_str(&mut m, ".fields field names must not contain control characters");
            proof {
                lemma_first_problem_stable((j + 1) as nat, c.fields.len(), check);
            }
            return Some(m);
        }
        if !listed(&payload.required_fields, f) && !listed(&payload.optional_fields, f) {
            let mut m = path.clone();
            push_str(&mut m, ".fields.");
            push_str(&mut m, f);
            push_str(&mut m, " must be listed in required_fields or optional_fields");
            proof {
                lemma_first_problem_stable((j + 1) as nat, c.fields.len(), check);
            }
            return Some(m);
        }
        if j < verdicts.len() {
            match &verdicts[j] {
                Some(m) => {
                    proof {
                        lemma_first_problem_stable((j + 1) as nat, c.fields.len(), check);
                    }
                    return Some(m.clone());
                },
                None => {},
            }
        }
        j = j + 1;
    }
    None
}

// ---------------------------------------------------------------------------
// Contracts
// ---------------------------------------------------------------------------

/// A validation failure of a contract, as the checks state it.
pub enum ContractProblem {
    Identifier { field: Seq<char>, value: Seq<char> },
    UnsupportedAdapter(Seq<char>),
    Topic { field: Seq<char>, value: Seq<char>, reason: Seq<char> },
    UnsupportedStrategy(Seq<char>, Seq<char>),
    Ambiguous(Seq<char>),
    Contract(Seq<char>),
    Other,
}

pub open spec fn problem_view(e: ScenarioError) -> ContractProblem {
    match e {
        ScenarioError::InvalidIdentifier { field, value } => ContractProblem::Identifier {
            field: field@,
            value: value@,
        },
        ScenarioError::UnsupportedMqttAdapter(a) => ContractProblem::UnsupportedAdapter(a@),
        ScenarioError::InvalidMqttTopic { field, value, reason } => ContractProblem::Topic {
            field: field@,
            value: value@,
            reason: reason@,
        },
        ScenarioError::UnsupportedMqttDeviceIdStrategy(n, s) => ContractProblem::UnsupportedStrategy(
            n@,
            s@,
        ),
        ScenarioError::AmbiguousMqttMapping(m) => ContractProblem::Ambiguous(m@),
        ScenarioError::InvalidAdapterContract(m) => ContractProblem::Contract(m@),
        _ => ContractProblem::Other,
    }
}

/// The first problem among the first `n` items, in order.
pub open spec fn first_issue<T>(n: nat, check: spec_fn(int) -> Option<T>) -> Option<T>
    decreases n,
{
    if n == 0 {
        None
    } else {
        match first_issue((n - 1) as nat, check) {
            Some(p) => Some(p),
            None => check(n - 1),
        }
    }
}

pub proof fn lemma_first_issue_stable<T>(k: nat, n: nat, check: spec_fn(int) -> Option<T>)
    requires
        k <= n,
        first_issue(k, check) is Some,
    ensures
        first_issue(n, check) == first_issue(k, check),
    decreases n,
{
    if n > k {
        lemma_first_issue_stable(k, (n - 1) as nat, check);
    }
}

/// How many items equal `x`.
pub open spec fn count_of(s: Seq<Seq<char>>, x: Seq<char>) -> nat
    decreases s.len(),
{
    if s.len() == 0 {
        0
    } else {
        count_of(s.drop_last(), x) + if s.last() == x {
            1nat
        } else {
            0nat
        }
    }
}

/// The items joined by `, `.
pub open spec fn joined(s: Seq<Seq<char>>) -> Seq<char>
    decreases s.len(),
{
    if s.len() == 0 {
        Seq::empty()
    } else if s.len() == 1 {
        s[0]
    } else {
        joined(s.drop_last()) + ", "@ + s.last()
    }
}

/// Whether two lists hold the same items, ignoring order and repeats.
pub open spec fn same_members(a: Seq<Seq<char>>, b: Seq<Seq<char>>) -> bool {
    (forall|k: int| 0 <= k < a.len() ==> b.contains(#[trigger] a[k])) && (forall|k: int|
        0 <= k < b.len() ==> a.contains(#[trigger] b[k]))
}

/// The first placeholder other than `{device_id}`.
pub open spec fn first_other(s: Seq<Seq<char>>) -> Option<Seq<char>>
    decreases s.len(),
{
    if s.len() == 0 {
        None
    } else {
        match first_other(s.drop_last()) {
            Some(p) => Some(p),
            None => if s.last() != "{device_id}"@ {
                Some(s.last())
            } else {
                None
            },
        }
    }
}

pub open spec fn topic_issue(path: Seq<char>, value: Seq<char>, reason: Seq<char>) -> ContractProblem {
    ContractProblem::Topic { field: path, value: sanitized(value), reason: sanitized(reason) }
}

/// What is wrong with the placeholders of a contract's two topics.
pub open spec fn placeholder_problem(
    cmd_path: Seq<char>,
    cmd: Seq<char>,
    cp: Seq<Seq<char>>,
    st_path: Seq<char>,
    st: Seq<char>,
    sp: Seq<Seq<char>>,
) -> Option<ContractProblem> {
    let dev = "{device_id}"@;
    let once = "must include exactly one {device_id} placeholder"@;
    if count_of(cp, dev) != 1 {
        Some(topic_issue(cmd_path, cmd, once))
    } else if count_of(sp, dev) != 1 {
        Some(topic_issue(st_path, st, once))
    } else if !same_members(cp, sp) {
        Some(
            topic_issue(
                st_path,
                st,
                "placeholders must match command_topic; command_topic has ["@ + joined(cp)
                    + "], state_topic has ["@ + joined(sp) + "]"@,
            ),
        )
    } else {
        match first_other(cp) {
            Some(p) => Some(
                topic_issue(cmd_path, cmd, "only the {device_id} placeholder is supported; found "@ + p),
            ),
            None => match first_other(sp) {
                Some(p) => Some(
                    topic_issue(
                        st_path,
                        st,
                        "only the {device_id} placeholder is supported; found "@ + p,
                    ),
                ),
                None => None,
            },
        }
    }
}

/// The first of the first `n` contracts whose command topic is `topic`.
pub open spec fn earliest_with_topic(cs: Seq<MqttContractView>, topic: Seq<char>, n: int) -> Option<
    int,
>
    decreases n,
{
    if n <= 0 {
        None
    } else {
        match earliest_with_topic(cs, topic, n - 1) {
            Some(j) => Some(j),
            None => if cs[n - 1].command_topic == topic {
                Some(n - 1)
            } else {
                None
            },
        }
    }
}

pub open spec fn verdicts_for(vs: Seq<Seq<Option<Seq<char>>>>, i: int) -> Seq<Option<Seq<char>>> {
    if 0 <= i < vs.len() {
        vs[i]
    } else {
        Seq::empty()
    }
}

pub open spec fn topic_path(name: Seq<char>, which: Seq<char>) -> Seq<char> {
    "mqtt.contracts["@ + name + "]."@ + which
}

/// The problem of the `i`-th contract, the earlier ones being sound.
pub open spec fn contract_check(cs: Seq<MqttContractView>, vs: Seq<Seq<Option<Seq<char>>>>, i: int) -> Option<
    ContractProblem,
> {
    let c = cs[i];
    let cmd_path = topic_path(c.name, "command_topic"@);
    let st_path = topic_path(c.name, "state_topic"@);
    if !valid_contract_name(c.name) {
        Some(
            ContractProblem::Identifier { field: "mqtt.contracts[].name"@, value: sanitized(c.name) },
        )
    } else if c.adapter != "mqtt_v3_qos0_subset"@ {
        Some(ContractProblem::UnsupportedAdapter(sanitized(c.adapter)))
    } else if mqtt_topic_problem(c.command_topic, false) is Some {
        Some(
            ContractProblem::Topic {
                field: cmd_path,
                value: c.command_topic,
                reason: mqtt_topic_problem(c.command_topic, false)->Some_0,
            },
        )
    } else if mqtt_topic_problem(c.state_topic, false) is Some {
        Some(
            ContractProblem::Topic {
                field: st_path,
                value: c.state_topic,
                reason: mqtt_topic_problem(c.state_topic, false)->Some_0,
            },
        )
    } else if c.device_id_from_topic != "placeholder:{device_id}"@ {
        Some(ContractProblem::UnsupportedStrategy(c.name, sanitized(c.device_id_from_topic)))
    } else {
        match topic_placeholders(c.command_topic) {
            Err(why) => Some(topic_issue(cmd_path, c.command_topic, why)),
            Ok(cp) => match topic_placeholders(c.state_topic) {
                Err(why) => Some(topic_issue(st_path, c.state_topic, why)),
                Ok(sp) => match placeholder_problem(
                    cmd_path,
                    c.command_topic,
                    cp,
                    st_path,
                    c.state_topic,
                    sp,
                ) {
                    Some(p) => Some(p),
                    None => match earliest_with_topic(cs, c.command_topic, i) {
                        Some(j) => Some(
                            ContractProblem::Ambiguous(
                                sanitized(c.command_topic) + " used by "@ + cs[j].name + " and "@
                                    + c.name,
                            ),
                        ),
                        None => match payload_problem(c, verdicts_for(vs, i)) {
                            Some(m) => Some(ContractProblem::Contract(m)),
                            None => None,
                        },
                    },
                },
            },
        }
    }
}

pub open spec fn contract_checker(cs: Seq<MqttContractView>, vs: Seq<Seq<Option<Seq<char>>>>) -> spec_fn(
    int,
) -> Option<ContractProblem> {
    |i: int| contract_check(cs, vs, i)
}

/// The first problem among MQTT contracts, contract by contract.
pub open spec fn mqtt_contracts_problem(cs: Seq<MqttContractView>, vs: Seq<Seq<Option<Seq<char>>>>) -> Option<
    ContractProblem,
> {
    first_issue(cs.len(), contract_checker(cs, vs))
}

pub open spec fn contract_views(cs: Seq<MqttConnectionContract>) -> Seq<MqttContractView> {
    cs.map_values(|c: MqttConnectionContract| c@)
}

pub open spec fn verdict_table(vs: Seq<Vec<Option<String>>>) -> Seq<Seq<Option<Seq<char>>>> {
    vs.map_values(|v: Vec<Option<String>>| verdict_views(v@))
}

fn count_device_id(ps: &Vec<String>) -> (n: usize)
    ensures
        n == count_of(texts(ps@), "{device_id}"@),
{
    let ghost all = texts(ps@);
    let mut n: usize = 0;
    let mut i: usize = 0;
    assert(all.take(0) =~= Seq::<Seq<char>>::empty());
    while i < ps.len()
        invariant
            i <= ps.len(),
            all == texts(ps@),
            n == count_of(all.take(i as int), "{device_id}"@),
            n <= i,
        decreases ps.len() - i,
    {
        assert(all.take(i + 1).drop_last() =~= all.take(i as int));
        assert(all.take(i + 1).last() == ps@[i as int]@);
        if str_eq(ps[i].as_str(), "{device_id}") {
            n = n + 1;
        }
        i = i + 1;
    }
    assert(all.take(ps.len() as int) =~= all);
    n
}

fn join_placeholders(ps: &Vec<String>) -> (s: String)
    ensures
        s@ == joined(texts(ps@)),
{
    let ghost all = texts(ps@);
    let mut s = String::new();
    let mut i: usize = 0;
    assert(all.take(0) =~= Seq::<Seq<char>>::empty());
    while i < ps.len()
        invariant
            i <= ps.len(),
            all == texts(ps@),
            s@ == joined(all.take(i as int)),
        decreases ps.len() - i,
    {
        assert(all.take(i + 1).drop_last() =~= all.take(i as int));
        assert(all.take(i + 1).last() == ps@[i as int]@);
        if i > 0 {
            push_str(&mut s, ", ");
        } else {
            assert(all.take(1) =~= seq![all[0]]);
        }
        push_str(&mut s, ps[i].as_str());
        i = i + 1;
    }
    assert(all.take(ps.len() as int) =~= all);
    s
}

fn other_placeholder(ps: &Vec<String>) -> (r: Option<usize>)
    ensures
        match r {
            Some(k) => k < ps.len() && first_other(texts(ps@)) == Some(ps@[k as int]@),
            None => first_other(texts(ps@)) is None,
        },
{
    let ghost all = texts(ps@);
    let mut i: usize = 0;
    assert(all.take(0) =~= Seq::<Seq<char>>::empty());
    while i < ps.len()
        invariant
            i <= ps.len(),
            all == texts(ps@),
            first_other(all.take(i as int)) is None,
        decreases ps.len() - i,
    {
        assert(all.take(i + 1).drop_last() =~= all.take(i as int));
        assert(all.take(i + 1).last() == ps@[i as int]@);
        if !str_eq(ps[i].as_str(), "{device_id}") {
            proof {
                lemma_first_other_stable(all, i + 1);
            }
            return Some(i);
        }
        i = i + 1;
    }
    assert(all.take(ps.len() as int) =~= all);
    None
}

proof fn lemma_first_other_stable(s: Seq<Seq<char>>, k: int)
    requires
        0 <= k <= s.len(),
        first_other(s.take(k)) is Some,
    ensures
        first_other(s) == first_other(s.take(k)),
    decreases s.len(),
{
    if s.len() > k {
        assert(s.drop_last().take(k) =~= s.take(k));
        lemma_first_other_stable(s.drop_last(), k);
    } else {
        assert(s.take(k) =~= s);
    }
}

/// Whether every item of `a` appears in `b`.
fn all_listed(a: &Vec<String>, b: &Vec<String>) -> (r: bool)
    ensures
        r == forall|k: int| 0 <= k < a.len() ==> texts(b@).contains(#[trigger] texts(a@)[k]),
{
    let mut i: usize = 0;
    while i < a.len()
        invariant
            i <= a.len(),
            forall|k: int| 0 <= k < i ==> texts(b@).contains(#[trigger] texts(a@)[k]),
        decreases a.len() - i,
    {
        assert(texts(a@)[i as int] == a@[i as int]@);
        if !listed(b, a[i].as_str()) {
            return false;
        }
        i = i + 1;
    }
    true
}

proof fn lemma_earliest_stable(cs: Seq<MqttContractView>, topic: Seq<char>, k: int, n: int)
    requires
        0 <= k <= n,
        earliest_with_topic(cs, topic, k) is Some,
    ensures
        earliest_with_topic(cs, topic, n) == earliest_with_topic(cs, topic, k),
    decreases n,
{
    if n > k {
        lemma_earliest_stable(cs, topic, k, n - 1);
    }
}

fn topic_path_text(name: &str, which: &str) -> (s: String)
    ensures
        s@ == topic_path(name@, which@),
{
    let mut s = concat2("mqtt.contracts[", name);
    push_str(&mut s, "].");
    push_str(&mut s, which);
    s
}

/// The problem of the `i`-th contract, the earlier ones being sound.
#[verifier::loop_isolation(false)]
fn contract_problem(
    contracts: &[MqttConnectionContract],
    verdicts: &Vec<Vec<Option<String>>>,
    i: usize,
) -> (r: Option<ScenarioError>)
    requires
        i < contracts.len(),
    ensures
        match r {
            Some(e) => contract_check(contract_views(contracts@), verdict_table(verdicts@), i as int)
                == Some(problem_view(e)),
            None => contract_check(contract_views(contracts@), verdict_table(verdicts@), i as int)
                is None,
        },
{
    let ghost cs = contract_views(contracts@);
    let ghost vt = verdict_table(verdicts@);
    let c = &contracts[i];
    assert(cs[i as int] == c@);
    match validate_mqtt_contract_name(c.name.as_str()) {
        Err(e) => {
            return Some(e);
        },
        Ok(()) => {},
    }
    if !str_eq(c.adapter.as_str(), "mqtt_v3_qos0_subset") {
        return Some(ScenarioError::UnsupportedMqttAdapter(sanitize_diagnostic_value(c.adapter.as_str())));
    }
    let cmd_path = topic_path_text(c.name.as_str(), "command_topic");
    let st_path = topic_path_text(c.name.as_str(), "state_topic");
    match MqttTopic::parse(cmd_path.as_str(), c.command_topic.as_str()) {
        Err(e) => {
            return Some(e);
        },
        Ok(_) => {},
    }
    match MqttTopic::parse(st_path.as_str(), c.state_topic.as_str()) {
        Err(e) => {
            return Some(e);
        },
        Ok(_) => {},
    }
    if !str_eq(c.device_id_from_topic.as_str(), "placeholder:{device_id}") {
        return Some(
            ScenarioError::UnsupportedMqttDeviceIdStrategy(
                c.name.clone(),
                sanitize_diagnostic_value(c.device_id_from_topic.as_str()),
            ),
        );
    }
    let cp = match mqtt_topic_placeholders(cmd_path.as_str(), c.command_topic.as_str()) {
        Err(e) => {
            return Some(e);
        },
        Ok(v) => v,
    };
    let sp = match mqtt_topic_placeholders(st_path.as_str(), c.state_topic.as_str()) {
        Err(e) => {
            return Some(e);
        },
        Ok(v) => v,
    };
    assert(texts(cp@) =~= cp@.map_values(|p: String| p@));
    assert(texts(sp@) =~= sp@.map_values(|p: String| p@));
    let cmd = c.command_topic.as_str();
    let st = c.state_topic.as_str();
    if count_device_id(&cp) != 1 {
        return Some(
            invalid_mqtt_contract_topic(
                cmd_path.as_str(),
                cmd,
                "must include exactly one {device_id} placeholder",
            ),
        );
    }
    if count_device_id(&sp) != 1 {
        return Some(
            invalid_mqtt_contract_topic(
                st_path.as_str(),
                st,
                "must include exactly one {device_id} placeholder",
            ),
        );
    }
    if !(all_listed(&cp, &sp) && all_listed(&sp, &cp)) {
        let mut reason = to_owned("placeholders must match command_topic; command_topic has [");
        let cj = join_placeholders(&cp);
        push_str(&mut reason, cj.as_str());
        push_str(&mut reason, "], state_topic has [");
        let sj = join_placeholders(&sp);
        push_str(&mut reason, sj.as_str());
        push_str(&mut reason, "]");
        return Some(invalid_mqtt_contract_topic(st_path.as_str(), st, reason.as_str()));
    }
    match other_placeholder(&cp) {
        Some(k) => {
            let reason = concat2(
                "only the {device_id} placeholder is supported; found ",
                cp[k].as_str(),
            );
            return Some(invalid_mqtt_contract_topic(cmd_path.as_str(), cmd, reason.as_str()));
        },
        None => {},
    }
    match other_placeholder(&sp) {
        Some(k) => {
            let reason = concat2(
                "only the {device_id} placeholder is supported; found ",
                sp[k].as_str(),
            );
            return Some(invalid_mqtt_contract_topic(st_path.as_str(), st, reason.as_str()));
        },
        None => {},
    }
    let mut j: usize = 0;
    while j < i
        invariant
            j <= i < contracts.len(),
            cs == contract_views(contracts@),
            earliest_with_topic(cs, c.command_topic@, j as int) is None,
        decreases i - j,
    {
        assert(cs[j as int] == contracts@[j as int]@);
        if str_eq(contracts[j].command_topic.as_str(), cmd) {
            proof {
                lemma_earliest_stable(cs, c.command_topic@, j + 1, i as int);
            }
            let mut m = sanitize_diagnostic_value(cmd);
            push_str(&mut m, " used by ");
            push_str(&mut m, contracts[j].name.as_str());
            push_str(&mut m, " and ");
            push_str(&mut m, c.name.as_str());
            return Some(ScenarioError::AmbiguousMqttMapping(m));
        }
        j = j + 1;
    }
    let empty: Vec<Option<String>> = Vec::new();
    let own = if i < verdicts.len() {
        &verdicts[i]
    } else {
        &empty
    };
    assert(verdict_views(own@) == verdicts_for(vt, i as int)) by {
        if i >= verdicts.len() {
            assert(verdict_views(own@) =~= Seq::<Option<Seq<char>>>::empty());
        }
    }
    match payload_problem_of(c, own) {
        Some(m) => Some(ScenarioError::InvalidAdapterContract(m)),
        None => None,
    }
}

/// Checks MQTT connection contracts in order: a well-formed name, the
/// supported adapter and device-id strategy, concrete topics whose
/// placeholders are exactly one `{device_id}` on both sides, a command topic
/// no earlier contract uses, and the payload expectation.
/// `constraint_verdicts[i][j]` is the outcome of checking the constraint of
/// the `j`-th field, in key order, of contract `i` (`Some` with the message
/// when it fails); those checks compare floating-point bounds and are made
/// by the caller. The first problem is the error.
pub fn validate_mqtt_contracts(
    contracts: &[MqttConnectionContract],
    constraint_verdicts: &Vec<Vec<Option<String>>>,
) -> (r: Result<(), ScenarioError>)
    ensures
        match r {
            Ok(()) => mqtt_contracts_problem(
                contract_views(contracts@),
                verdict_table(constraint_verdicts@),
            ) is None,
            Err(e) => mqtt_contracts_problem(
                contract_views(contracts@),
                verdict_table(constraint_verdicts@),
            ) == Some(problem_view(e)),
        },
{
    let ghost cs = contract_views(contracts@);
    let ghost vt = verdict_table(constraint_verdicts@);
    let ghost check = contract_checker(cs, vt);
    let mut i: usize = 0;
    while i < contracts.len()
        invariant
            i <= contracts.len(),
            cs == contract_views(contracts@),
            vt == verdict_table(constraint_verdicts@),
            check == contract_checker(cs, vt),
            first_issue(i as nat, check) is None,
        decreases contracts.len() - i,
    {
        match contract_problem(contracts, constraint_verdicts, i) {
            Some(e) => {
                proof {
                    lemma_first_issue_stable((i + 1) as nat, cs.len(), check);
                }
                return Err(e);
            },
            None => {},
        }
        i = i + 1;
    }
    Ok(())
}

/// Checks one contract's payload expectation: field-name lists without
/// blank, control-bearing or repeated names, no field both required and
/// optional, every optional field constrained, every constrained field
/// listed, and each constraint's verdict (`constraint_verdicts[j]` for the
/// `j`-th field in key order).
pub fn validate_mqtt_payload_expectation(
    contract: &MqttConnectionContract,
    constraint_verdicts: &Vec<Option<String>>,
) -> (r: Result<(), ScenarioError>)
    ensures
        match r {
            Ok(()) => payload_problem(contract@, verdict_views(constraint_verdicts@)) is None,
            Err(ScenarioError::InvalidAdapterContract(m)) => payload_problem(
                contract@,
                verdict_views(constraint_verdicts@),
            ) == Some(m@),
            Err(_) => false,
        },
{
    match payload_problem_of(contract, constraint_verdicts) {
        Some(m) => Err(ScenarioError::InvalidAdapterContract(m)),
        None => Ok(()),
    }
}

proof fn lemma_earliest_none(cs: Seq<MqttContractView>, topic: Seq<char>, n: int)
    requires
        earliest_with_topic(cs, topic, n) is None,
    ensures
        forall|i: int| 0 <= i < n ==> cs[i].command_topic != topic,
    decreases n,
{
    if n > 0 {
        lemma_earliest_none(cs, topic, n - 1);
    }
}

pub proof fn lemma_first_issue_none<T>(n: nat, check: spec_fn(int) -> Option<T>)
    requires
        first_issue(n, check) is None,
    ensures
        forall|i: int| 0 <= i < n ==> #[trigger] check(i) is None,
    decreases n,
{
    if n > 0 {
        lemma_first_issue_none((n - 1) as nat, check);
    }
}

/// Accepted MQTT contracts are unambiguous: no two of them share a
/// command topic.
pub proof fn law_accepted_contracts_have_distinct_command_topics(
    cs: Seq<MqttContractView>,
    vs: Seq<Seq<Option<Seq<char>>>>,
)
    requires
        mqtt_contracts_problem(cs, vs) is None,
    ensures
        forall|i: int, j: int|
            0 <= i < j < cs.len() ==> #[trigger] cs[i].command_topic != #[trigger] cs[j].command_topic,
{
    lemma_first_issue_none(cs.len(), contract_checker(cs, vs));
    assert forall|i: int, j: int| 0 <= i < j < cs.len() implies #[trigger] cs[i].command_topic
        != #[trigger] cs[j].command_topic by {
        assert(contract_checker(cs, vs)(j) is None);
        assert(contract_check(cs, vs, j) is None);
        assert(earliest_with_topic(cs, cs[j].command_topic, j) is None);
        lemma_earliest_none(cs, cs[j].command_topic, j);
    }
}

} // verus!

//! Contract checks shared by scenarios and adapter contracts: required text,
//! evidence ids, scenario names and versions, MQTT contract names and topic
//! placeholders, runtime topics, and the escaping of untrusted text in
//! diagnostics.

use vstd::prelude::*;

use crate::scenario::{has_outer_whitespace, ScenarioError};
use crate::text::{
    byte_len, char_is_ascii_digit, char_is_ascii_lowercase, char_is_control, char_is_whitespace,
    chars_of, concat2, first_occurrence, has_control, has_prefix, has_suffix, has_whitespace,
    is_ascii_digit, is_ascii_lowercase, is_blank, is_control, is_whitespace, lemma_find_from,
    push_char, push_str, seq_contains_char, seq_has_control, seq_has_whitespace, seq_is_blank,
    str_byte_len, str_eq, string_from_chars, string_from_subrange, to_owned,
};

verus! {

/// Diagnostics show at most this many characters of an untrusted value.
pub const MAX_DIAGNOSTIC_VALUE_CHARS: usize = 256;

/// Evidence ids are at most this many bytes.
pub const MAX_EVIDENCE_ID_BYTES: usize = 128;

/// MQTT contract names are at most this many bytes.
pub const MAX_MQTT_CONTRACT_NAME_BYTES: usize = 128;

/// MQTT topics are at most this many bytes.
pub const MAX_MQTT_TOPIC_BYTES: usize = 65535;

// ---------------------------------------------------------------------------
// Required text and evidence ids
// ---------------------------------------------------------------------------

/// Rejects a blank value: `<field> must not be empty`.
pub fn require_non_empty(field: &str, value: &str) -> (r: Result<(), ScenarioError>)
    ensures
        match r {
            Ok(()) => !is_blank(value@),
            Err(ScenarioError::InvalidAdapterContract(m)) => is_blank(value@) && m@ == field@
                + " must not be empty"@,
            Err(_) => false,
        },
{
    let chars = chars_of(value);
    if seq_is_blank(&chars) {
        return Err(ScenarioError::InvalidAdapterContract(concat2(field, " must not be empty")));
    }
    Ok(())
}

/// An evidence id: 1 to 128 bytes matching `^[a-z0-9][a-z0-9_-]*$`.
pub open spec fn valid_evidence_id(s: Seq<char>) -> bool {
    &&& s.len() > 0
    &&& byte_len(s) <= MAX_EVIDENCE_ID_BYTES
    &&& forall|i: int|
        0 <= i < s.len() ==> is_ascii_lowercase(#[trigger] s[i]) || is_ascii_digit(s[i]) || (i > 0
            && (s[i] == '_' || s[i] == '-'))
}

/// Checks an evidence id; `field` names it in the error.
pub fn validate_evidence_id(field: &str, value: &str) -> (r: Result<(), ScenarioError>)
    ensures
        match r {
            Ok(()) => valid_evidence_id(value@),
            Err(ScenarioError::InvalidAdapterContract(m)) => !valid_evidence_id(value@) && m@
                == field@ + " must be at most 128 bytes and match ^[a-z0-9][a-z0-9_-]*$"@,
            Err(_) => false,
        },
{
    let chars = chars_of(value);
    let mut valid = chars.len() > 0 && str_byte_len(value) <= MAX_EVIDENCE_ID_BYTES;
    let mut i: usize = 0;
    while i < chars.len()
        invariant
            i <= chars.len(),
            chars@ == value@,
            valid == (chars.len() > 0 && byte_len(value@) <= MAX_EVIDENCE_ID_BYTES && forall|j: int|
                0 <= j < i ==> is_ascii_lowercase(#[trigger] chars@[j]) || is_ascii_digit(chars@[j])
                    || (j > 0 && (chars@[j] == '_' || chars@[j] == '-'))),
        decreases chars.len() - i,
    {
        let c = chars[i];
        if !(char_is_ascii_lowercase(c) || char_is_ascii_digit(c) || (i > 0 && (c == '_' || c
            == '-'))) {
            valid = false;
        }
        i = i + 1;
    }
    if valid {
        Ok(())
    } else {
        Err(
            ScenarioError::InvalidAdapterContract(
                concat2(field, " must be at most 128 bytes and match ^[a-z0-9][a-z0-9_-]*$"),
            ),
        )
    }
}

// ---------------------------------------------------------------------------
// Scenario names and versions
// ---------------------------------------------------------------------------

/// A scenario name: matches `^[a-z0-9][a-z0-9_]*$`.
pub open spec fn valid_scenario_name(s: Seq<char>) -> bool {
    &&& s.len() > 0
    &&& (is_ascii_lowercase(s[0]) || is_ascii_digit(s[0]))
    &&& forall|i: int|
        1 <= i < s.len() ==> is_ascii_lowercase(#[trigger] s[i]) || is_ascii_digit(s[i]) || s[i]
            == '_'
}

/// Checks a scenario name.
pub fn validate_scenario_name(name: &str) -> (r: Result<(), ScenarioError>)
    ensures
        match r {
            Ok(()) => valid_scenario_name(name@),
            Err(ScenarioError::ScenarioContract { field, reason }) => !valid_scenario_name(name@)
                && field@ == "scenario.name"@ && reason@ == if name@.len() == 0 {
                "must not be empty"@
            } else {
                "must match ^[a-z0-9][a-z0-9_]*$"@
            },
            Err(_) => false,
        },
{
    let chars = chars_of(name);
    if chars.len() == 0 {
        return Err(
            ScenarioError::ScenarioContract {
                field: to_owned("scenario.name"),
                reason: to_owned("must not be empty"),
            },
        );
    }
    let first = chars[0];
    if !char_is_ascii_lowercase(first) && !char_is_ascii_digit(first) {
        return Err(
            ScenarioError::ScenarioContract {
                field: to_owned("scenario.name"),
                reason: to_owned("must match ^[a-z0-9][a-z0-9_]*$"),
            },
        );
    }
    let mut i: usize = 1;
    while i < chars.len()
        invariant
            1 <= i <= chars.len(),
            chars@ == name@,
            forall|j: int|
                1 <= j < i ==> is_ascii_lowercase(#[trigger] chars@[j]) || is_ascii_digit(chars@[j])
                    || chars@[j] == '_',
        decreases chars.len() - i,
    {
        let c = chars[i];
        if !(char_is_ascii_lowercase(c) || char_is_ascii_digit(c) || c == '_') {
            return Err(
                ScenarioError::ScenarioContract {
                    field: to_owned("scenario.name"),
                    reason: to_owned("must match ^[a-z0-9][a-z0-9_]*$"),
                },
            );
        }
        i = i + 1;
    }
    Ok(())
}

/// The value of a string of decimal digits.
pub open spec fn digits_value(s: Seq<char>) -> nat
    decreases s.len(),
{
    if s.len() == 0 {
        0
    } else {
        digits_value(s.drop_last()) * 10 + ((s.last() as nat) - ('0' as nat)) as nat
    }
}

pub open spec fn all_digits(s: Seq<char>) -> bool {
    forall|i: int| 0 <= i < s.len() ==> is_ascii_digit(#[trigger] s[i])
}

proof fn lemma_digits_value_prefix(s: Seq<char>, j: int)
    requires
        0 <= j <= s.len(),
        all_digits(s),
    ensures
        digits_value(s.take(j)) <= digits_value(s),
    decreases s.len(),
{
    if j < s.len() {
        assert(s.drop_last().take(j) =~= s.take(j));
        assert(all_digits(s.drop_last())) by {
            assert forall|i: int| 0 <= i < s.drop_last().len() implies is_ascii_digit(
                #[trigger] s.drop_last()[i],
            ) by {
                assert(s.drop_last()[i] == s[i]);
            }
        }
        lemma_digits_value_prefix(s.drop_last(), j);
    } else {
        assert(s.take(j) =~= s);
    }
}

/// Parses the decimal digits `chars[start..end]` as a `u64`; `None` when the
/// value does not fit.
pub fn parse_digits_u64(chars: &Vec<char>, start: usize, end: usize) -> (r: Option<u64>)
    requires
        start <= end <= chars.len(),
        all_digits(chars@.subrange(start as int, end as int)),
    ensures
        match r {
            Some(v) => v == digits_value(chars@.subrange(start as int, end as int)),
            None => digits_value(chars@.subrange(start as int, end as int)) > u64::MAX,
        },
{
    let ghost whole = chars@.subrange(start as int, end as int);
    let mut acc: u64 = 0;
    let mut i: usize = start;
    assert(whole.take(0) =~= Seq::<char>::empty());
    while i < end
        invariant
            start <= i <= end <= chars.len(),
            whole == chars@.subrange(start as int, end as int),
            all_digits(whole),
            acc == digits_value(whole.take(i - start)),
        decreases end - i,
    {
        let ghost prefix = whole.take(i - start + 1);
        assert(prefix.drop_last() =~= whole.take(i - start));
        assert(prefix.last() == chars@[i as int]);
        assert(is_ascii_digit(whole[i - start]));
        let d = (chars[i] as u32 - '0' as u32) as u64;
        match acc.checked_mul(10) {
            Some(m) => match m.checked_add(d) {
                Some(n) => {
                    acc = n;
                },
                None => {
                    proof {
                        lemma_digits_value_prefix(whole, i - start + 1);
                    }
                    return None;
                },
            },
            None => {
                proof {
                    lemma_digits_value_prefix(whole, i - start + 1);
                }
                return None;
            },
        }
        i = i + 1;
    }
    assert(whole.take(end - start) =~= whole);
    Some(acc)
}

/// The scenario version after an optional lowercase `v` prefix.
pub open spec fn version_digits(version: Seq<char>) -> Seq<char> {
    if version.len() > 0 && version[0] == 'v' {
        version.subrange(1, version.len() as int)
    } else {
        version
    }
}

/// Checks what a scenario declares about itself, in order: a supported
/// version, a well-formed name, and at least one assertion.
pub fn validate_scenario_header(version: &str, name: &str, assertion_count: usize) -> (r: Result<
    (),
    ScenarioError,
>)
    ensures
        match r {
            Ok(()) => version_problem(version@) is None && valid_scenario_name(name@) && assertion_count > 0,
            Err(ScenarioError::InvalidScenarioVersion { version: v, reason }) => version_problem(version@)
                == Some(reason@) && v@ == version@,
            Err(ScenarioError::ScenarioContract { field, reason }) => version_problem(version@) is None && if !valid_scenario_name(name@) {
                field@ == "scenario.name"@ && reason@ == if name@.len() == 0 {
                    "must not be empty"@
                } else {
                    "must match ^[a-z0-9][a-z0-9_]*$"@
                }
            } else {
                assertion_count == 0 && field@ == "assertions"@ && reason@ == "must contain at least 1 item"@
            },
            Err(_) => false,
        },
{
    validate_scenario_version(version)?;
    validate_scenario_name(name)?;
    if assertion_count == 0 {
        return Err(
            ScenarioError::ScenarioContract {
                field: to_owned("assertions"),
                reason: to_owned("must contain at least 1 item"),
            },
        );
    }
    Ok(())
}

/// What is wrong with the numeric components of a version, in order.
pub open spec fn version_component_problem(parts: Seq<Seq<char>>) -> Option<Seq<char>>
    decreases parts.len(),
{
    if parts.len() == 0 {
        None
    } else {
        match version_component_problem(parts.drop_last()) {
            Some(p) => Some(p),
            None => {
                let part = parts.last();
                if part.len() == 0 || !all_digits(part) {
                    Some("must contain only numeric semver components"@)
                } else if part.len() > 1 && part[0] == '0' {
                    Some("must not use leading zero in numeric components"@)
                } else {
                    None
                }
            },
        }
    }
}

/// What is wrong with a scenario version; only `0.1` is supported.
pub open spec fn version_problem(version: Seq<char>) -> Option<Seq<char>> {
    let normalized = version_digits(version);
    let parts = crate::text::split_on(normalized, '.');
    if has_outer_whitespace(version) {
        Some("must not contain leading or trailing whitespace"@)
    } else if normalized.len() == 0 {
        Some("must contain a major version"@)
    } else if !(1 <= parts.len() <= 3) {
        Some("must use <major>.<minor>[.<patch>] format"@)
    } else if version_component_problem(parts) is Some {
        version_component_problem(parts)
    } else if digits_value(parts[0]) > u64::MAX {
        Some("major version must fit u64"@)
    } else if parts.len() >= 2 && digits_value(parts[1]) > u64::MAX {
        Some("minor version must fit u64"@)
    } else if !(digits_value(parts[0]) == 0 && (if parts.len() >= 2 {
        digits_value(parts[1])
    } else {
        0
    }) == 1) {
        Some("unsupported scenario version. Supported versions: 0.1"@)
    } else {
        None
    }
}

fn version_error(version: &str, reason: &str) -> (r: Result<(), ScenarioError>)
    ensures
        r matches Err(ScenarioError::InvalidScenarioVersion { version: v, reason: why }) && v@
            == version@ && why@ == reason@,
{
    Err(ScenarioError::InvalidScenarioVersion { version: to_owned(version), reason: to_owned(reason) })
}

/// Checks a scenario version: `[vV]<major>[.<minor>[.<patch>]]` with plain
/// numeric components, and only version 0.1 is supported.
pub fn validate_scenario_version(version: &str) -> (r: Result<(), ScenarioError>)
    ensures
        match r {
            Ok(()) => version_problem(version@) is None,
            Err(ScenarioError::InvalidScenarioVersion { version: v, reason }) => version_problem(
                version@,
            ) == Some(reason@) && v@ == version@,
            Err(_) => false,
        },
{
    let chars = chars_of(version);
    if chars.len() > 0 && (char_is_whitespace(chars[0]) || char_is_whitespace(
        chars[chars.len() - 1],
    )) {
        return version_error(version, "must not contain leading or trailing whitespace");
    }
    let normalized = if chars.len() > 0 && chars[0] == 'v' {
        string_from_subrange(&chars, 1, chars.len())
    } else {
        string_from_chars(chars.as_slice())
    };
    assert(normalized@ == version_digits(version@));
    if normalized.as_str().is_empty() {
        return version_error(version, "must contain a major version");
    }
    let parts = crate::text::split_char(normalized.as_str(), '.');
    let ghost ps = parts@.map_values(|p: String| p@);
    if parts.len() < 1 || parts.len() > 3 {
        return version_error(version, "must use <major>.<minor>[.<patch>] format");
    }
    let mut i: usize = 0;
    assert(ps.take(0) =~= Seq::<Seq<char>>::empty());
    while i < parts.len()
        invariant
            i <= parts.len(),
            1 <= parts.len() <= 3,
            ps == parts@.map_values(|p: String| p@),
            ps == crate::text::split_on(version_digits(version@), '.'),
            !has_outer_whitespace(version@),
            version_digits(version@).len() > 0,
            version_component_problem(ps.take(i as int)) is None,
        decreases parts.len() - i,
    {
        let ghost prefix = ps.take(i + 1);
        assert(prefix.drop_last() =~= ps.take(i as int));
        assert(prefix.last() == parts@[i as int]@);
        let part = chars_of(parts[i].as_str());
        let mut all: bool = part.len() > 0;
        let mut k: usize = 0;
        while k < part.len()
            invariant
                k <= part.len(),
                all == (part.len() > 0 && forall|j: int| 0 <= j < k ==> is_ascii_digit(#[trigger] part@[j])),
            decreases part.len() - k,
        {
            if !char_is_ascii_digit(part[k]) {
                all = false;
            }
            k = k + 1;
        }
        if !all {
            proof {
                lemma_version_component_prefix(ps, i as int);
            }
            return version_error(version, "must contain only numeric semver components");
        }
        if part.len() > 1 && part[0] == '0' {
            proof {
                lemma_version_component_prefix(ps, i as int);
            }
            return version_error(version, "must not use leading zero in numeric components");
        }
        i = i + 1;
    }
    assert(ps.take(parts.len() as int) =~= ps);
    let first = chars_of(parts[0].as_str());
    proof {
        lemma_components_all_digits(ps, 0);
        assert(first@.subrange(0, first.len() as int) =~= first@);
    }
    let major = match parse_digits_u64(&first, 0, first.len()) {
        Some(v) => v,
        None => {
            return version_error(version, "major version must fit u64");
        },
    };
    let minor = if parts.len() >= 2 {
        let second = chars_of(parts[1].as_str());
        proof {
            lemma_components_all_digits(ps, 1);
            assert(second@.subrange(0, second.len() as int) =~= second@);
        }
        match parse_digits_u64(&second, 0, second.len()) {
            Some(v) => v,
            None => {
                return version_error(version, "minor version must fit u64");
            },
        }
    } else {
        0
    };
    if !(major == 0 && minor == 1) {
        return version_error(version, "unsupported scenario version. Supported versions: 0.1");
    }
    Ok(())
}

proof fn lemma_version_component_prefix(parts: Seq<Seq<char>>, i: int)
    requires
        0 <= i < parts.len(),
        version_component_problem(parts.take(i + 1)) is Some,
    ensures
        version_component_problem(parts) == version_component_problem(parts.take(i + 1)),
    decreases parts.len(),
{
    if parts.len() > i + 1 {
        assert(parts.drop_last().take(i + 1) =~= parts.take(i + 1));
        lemma_version_component_prefix(parts.drop_last(), i);
    } else {
        assert(parts.take(i + 1) =~= parts);
    }
}

proof fn lemma_components_all_digits(parts: Seq<Seq<char>>, i: int)
    requires
        0 <= i < parts.len(),
        version_component_problem(parts) is None,
    ensures
        all_digits(parts[i]),
        parts[i].len() > 0,
    decreases parts.len(),
{
    if i < parts.len() - 1 {
        assert(parts.drop_last()[i] == parts[i]);
        lemma_components_all_digits(parts.drop_last(), i);
    }
}

// ---------------------------------------------------------------------------
// Diagnostics
// ---------------------------------------------------------------------------

/// Characters shown escaped in diagnostics: controls, whitespace other than
/// a space, and bidirectional formatting characters.
pub open spec fn requires_escape(c: char) -> bool {
    ||| is_control(c)
    ||| (is_whitespace(c) && c != ' ')
    ||| c == '\u{061c}'
    ||| c == '\u{200e}'
    ||| c == '\u{200f}'
    ||| ('\u{202a}' <= c && c <= '\u{202e}')
    ||| ('\u{2066}' <= c && c <= '\u{2069}')
}

/// Whether a character is shown escaped in diagnostics.
pub fn diagnostic_character_requires_escape(c: char) -> (r: bool)
    ensures
        r == requires_escape(c),
{
    char_is_control(c) || (char_is_whitespace(c) && c != ' ') || c == '\u{061c}' || c
        == '\u{200e}' || c == '\u{200f}' || ('\u{202a}' <= c && c <= '\u{202e}') || ('\u{2066}'
        <= c && c <= '\u{2069}')
}

pub open spec fn hex_digit(d: nat) -> char {
    if d < 10 {
        ((d + 48) as u8) as char
    } else {
        ((d + 87) as u8) as char
    }
}

/// Lowercase hexadecimal digits of `n`, without leading zeros.
pub open spec fn hex(n: nat) -> Seq<char>
    decreases n,
{
    if n < 16 {
        seq![hex_digit(n)]
    } else {
        hex(n / 16).push(hex_digit(n % 16))
    }
}

/// `char::escape_default`.
pub open spec fn escape_default(c: char) -> Seq<char> {
    if c == '\t' {
        "\\t"@
    } else if c == '\r' {
        "\\r"@
    } else if c == '\n' {
        "\\n"@
    } else if c == '\\' || c == '\'' || c == '"' {
        seq!['\\', c]
    } else if ' ' <= c && c <= '~' {
        seq![c]
    } else {
        "\\u{"@ + hex(c as nat) + "}"@
    }
}

/// The diagnostic text of a prefix of a value.
pub open spec fn sanitized_chars(s: Seq<char>) -> Seq<char>
    decreases s.len(),
{
    if s.len() == 0 {
        Seq::empty()
    } else {
        sanitized_chars(s.drop_last()) + if requires_escape(s.last()) {
            escape_default(s.last())
        } else {
            seq![s.last()]
        }
    }
}

/// Untrusted text as diagnostics show it: its first 256 characters, with
/// controls, non-space whitespace and bidi formatting escaped, and an
/// ellipsis when it was longer.
pub open spec fn sanitized(s: Seq<char>) -> Seq<char> {
    if s.len() > MAX_DIAGNOSTIC_VALUE_CHARS {
        sanitized_chars(s.take(MAX_DIAGNOSTIC_VALUE_CHARS as int)).push('…')
    } else {
        sanitized_chars(s)
    }
}

fn push_hex(out: &mut String, n: u32)
    ensures
        final(out)@ == old(out)@ + hex(n as nat),
    decreases n,
{
    if n >= 16 {
        push_hex(out, n / 16);
        let d = n % 16;
        let c = if d < 10 {
            ((d + 48) as u8) as char
        } else {
            ((d + 87) as u8) as char
        };
        push_char(out, c);
    } else {
        let c = if n < 10 {
            ((n + 48) as u8) as char
        } else {
            ((n + 87) as u8) as char
        };
        push_char(out, c);
    }
}

fn push_escaped(out: &mut String, c: char)
    ensures
        final(out)@ == old(out)@ + escape_default(c),
{
    proof {
        reveal_strlit("\\t");
        reveal_strlit("\\r");
        reveal_strlit("\\n");
        reveal_strlit("\\u{");
        reveal_strlit("}");
    }
    if c == '\t' {
        push_str(out, "\\t");
    } else if c == '\r' {
        push_str(out, "\\r");
    } else if c == '\n' {
        push_str(out, "\\n");
    } else if c == '\\' || c == '\'' || c == '"' {
        push_char(out, '\\');
        push_char(out, c);
        assert(out@ =~= old(out)@ + seq!['\\', c]);
    } else if ' ' <= c && c <= '~' {
        push_char(out, c);
        assert(out@ =~= old(out)@ + seq![c]);
    } else {
        push_str(out, "\\u{");
        push_hex(out, c as u32);
        push_str(out, "}");
        assert(out@ =~= old(out)@ + ("\\u{"@ + hex(c as nat) + "}"@));
    }
}

/// Escapes and bounds untrusted text before it is embedded in diagnostics.
pub fn sanitize_diagnostic_value(value: &str) -> (r: String)
    ensures
        r@ == sanitized(value@),
{
    let chars = chars_of(value);
    let limit = if chars.len() > MAX_DIAGNOSTIC_VALUE_CHARS {
        MAX_DIAGNOSTIC_VALUE_CHARS
    } else {
        chars.len()
    };
    let mut out = String::new();
    let mut i: usize = 0;
    assert(chars@.take(0) =~= Seq::<char>::empty());
    while i < limit
        invariant
            i <= limit <= chars.len(),
            chars@ == value@,
            out@ == sanitized_chars(chars@.take(i as int)),
        decreases limit - i,
    {
        let c = chars[i];
        assert(chars@.take(i + 1).drop_last() =~= chars@.take(i as int));
        if diagnostic_character_requires_escape(c) {
            push_escaped(&mut out, c);
        } else {
            push_char(&mut out, c);
            assert(out@ =~= sanitized_chars(chars@.take(i as int)) + seq![c]);
        }
        i = i + 1;
    }
    if chars.len() > MAX_DIAGNOSTIC_VALUE_CHARS {
        push_char(&mut out, '…');
    } else {
        assert(chars@.take(chars.len() as int) =~= chars@);
    }
    out
}

// ---------------------------------------------------------------------------
// MQTT contract names and topic placeholders
// ---------------------------------------------------------------------------

/// An MQTT contract name: not blank, at most 128 bytes, without whitespace,
/// controls or square brackets.
pub open spec fn valid_contract_name(s: Seq<char>) -> bool {
    !is_blank(s) && byte_len(s) <= MAX_MQTT_CONTRACT_NAME_BYTES && !has_whitespace(s)
        && !has_control(s) && !s.contains('[') && !s.contains(']')
}

/// Checks an MQTT contract name; the error shows it sanitized.
pub fn validate_mqtt_contract_name(name: &str) -> (r: Result<(), ScenarioError>)
    ensures
        match r {
            Ok(()) => valid_contract_name(name@),
            Err(ScenarioError::InvalidIdentifier { field, value }) => !valid_contract_name(name@)
                && field@ == "mqtt.contracts[].name"@ && value@ == sanitized(name@),
            Err(_) => false,
        },
{
    let chars = chars_of(name);
    if seq_is_blank(&chars) || str_byte_len(name) > MAX_MQTT_CONTRACT_NAME_BYTES
        || seq_has_whitespace(&chars) || seq_has_control(&chars) || seq_contains_char(&chars, '[')
        || seq_contains_char(&chars, ']') {
        return Err(
            ScenarioError::InvalidIdentifier {
                field: to_owned("mqtt.contracts[].name"),
                value: sanitize_diagnostic_value(name),
            },
        );
    }
    Ok(())
}

/// The error for a malformed MQTT contract topic; value and reason are
/// sanitized.
pub fn invalid_mqtt_contract_topic(field: &str, value: &str, reason: &str) -> (r: ScenarioError)
    ensures
        r matches ScenarioError::InvalidMqttTopic { field: f, value: v, reason: why } && f@
            == field@ && v@ == sanitized(value@) && why@ == sanitized(reason@),
{
    ScenarioError::InvalidMqttTopic {
        field: to_owned(field),
        value: sanitize_diagnostic_value(value),
        reason: sanitize_diagnostic_value(reason),
    }
}

/// The scan state of a topic template: the placeholders so far and the
/// position of an open brace, or the reason the template is malformed.
pub open spec fn placeholder_scan(s: Seq<char>) -> Result<(Seq<Seq<char>>, Option<int>), Seq<char>>
    decreases s.len(),
{
    if s.len() == 0 {
        Ok((Seq::empty(), None))
    } else {
        let i = s.len() - 1;
        let c = s.last();
        match placeholder_scan(s.drop_last()) {
            Err(e) => Err(e),
            Ok((found, opening)) => if c == '{' {
                match opening {
                    None => Ok((found, Some(i))),
                    Some(_) => Err("contains a nested or unclosed placeholder"@),
                }
            } else if c == '}' {
                match opening {
                    Some(start) => if i == start + 1 {
                        Err("contains an empty placeholder"@)
                    } else {
                        Ok((found.push(s.subrange(start, i + 1)), None))
                    },
                    None => Err("contains a closing brace without an opening brace"@),
                }
            } else {
                Ok((found, opening))
            },
        }
    }
}

/// The `{...}` placeholders of a topic template, in order, or the reason it
/// is malformed.
pub open spec fn topic_placeholders(s: Seq<char>) -> Result<Seq<Seq<char>>, Seq<char>> {
    match placeholder_scan(s) {
        Err(e) => Err(e),
        Ok((found, Some(_))) => Err("contains an unclosed placeholder"@),
        Ok((found, None)) => Ok(found),
    }
}

proof fn lemma_placeholder_scan_bounds(s: Seq<char>)
    ensures
        placeholder_scan(s) matches Ok((found, Some(start))) ==> 0 <= start < s.len() && s[start]
            == '{',
    decreases s.len(),
{
    if s.len() > 0 {
        lemma_placeholder_scan_bounds(s.drop_last());
    }
}

proof fn lemma_placeholder_scan_error(s: Seq<char>, i: int)
    requires
        0 <= i < s.len(),
        placeholder_scan(s.take(i + 1)) is Err,
    ensures
        placeholder_scan(s) == placeholder_scan(s.take(i + 1)),
    decreases s.len(),
{
    if s.len() > i + 1 {
        assert(s.drop_last().take(i + 1) =~= s.take(i + 1));
        lemma_placeholder_scan_error(s.drop_last(), i);
    } else {
        assert(s.take(i + 1) =~= s);
    }
}

/// Lists the placeholders of a topic template; `field` names it in the error.
pub fn mqtt_topic_placeholders(field: &str, value: &str) -> (r: Result<Vec<String>, ScenarioError>)
    ensures
        match r {
            Ok(found) => topic_placeholders(value@) == Ok::<Seq<Seq<char>>, Seq<char>>(
                found@.map_values(|p: String| p@),
            ),
            Err(ScenarioError::InvalidMqttTopic { field: f, value: v, reason }) =>
                topic_placeholders(value@) matches Err(why) && f@ == field@ && v@ == sanitized(
                value@,
            ) && reason@ == sanitized(why),
            Err(_) => false,
        },
{
    let chars = chars_of(value);
    let mut found: Vec<String> = Vec::new();
    let mut opening: Option<usize> = None;
    let mut i: usize = 0;
    assert(chars@.take(0) =~= Seq::<char>::empty());
    assert(found@.map_values(|p: String| p@) =~= Seq::<Seq<char>>::empty());
    while i < chars.len()
        invariant
            i <= chars.len(),
            chars@ == value@,
            placeholder_scan(chars@.take(i as int)) == Ok::<(Seq<Seq<char>>, Option<int>), Seq<char>>(
                (
                    found@.map_values(|p: String| p@),
                    match opening {
                        Some(o) => Some(o as int),
                        None => None,
                    },
                ),
            ),
        decreases chars.len() - i,
    {
        let ghost before = found@.map_values(|p: String| p@);
        let ghost prefix = chars@.take(i + 1);
        assert(prefix.drop_last() =~= chars@.take(i as int));
        proof {
            lemma_placeholder_scan_bounds(chars@.take(i as int));
        }
        let c = chars[i];
        if c == '{' {
            match opening {
                None => {
                    opening = Some(i);
                },
                Some(_) => {
                    proof {
                        lemma_placeholder_scan_error(chars@, i as int);
                    }
                    return Err(
                        invalid_mqtt_contract_topic(
                            field,
                            value,
                            "contains a nested or unclosed placeholder",
                        ),
                    );
                },
            }
        } else if c == '}' {
            match opening {
                Some(start) => {
                    if i == start + 1 {
                        proof {
                            lemma_placeholder_scan_error(chars@, i as int);
                        }
                        return Err(
                            invalid_mqtt_contract_topic(field, value, "contains an empty placeholder"),
                        );
                    }
                    let text = string_from_subrange(&chars, start, i + 1);
                    assert(text@ == prefix.subrange(start as int, i + 1));
                    found.push(text);
                    assert(found@.map_values(|p: String| p@) =~= before.push(text@));
                    opening = None;
                },
                None => {
                    proof {
                        lemma_placeholder_scan_error(chars@, i as int);
                    }
                    return Err(
                        invalid_mqtt_contract_topic(
                            field,
                            value,
                            "contains a closing brace without an opening brace",
                        ),
                    );
                },
            }
        }
        i = i + 1;
    }
    assert(chars@.take(chars.len() as int) =~= chars@);
    if opening.is_some() {
        return Err(invalid_mqtt_contract_topic(field, value, "contains an unclosed placeholder"));
    }
    Ok(found)
}

// ---------------------------------------------------------------------------
// Runtime topics and contract matching
// ---------------------------------------------------------------------------

/// A concrete runtime topic: 1 to 65535 bytes, without controls,
/// whitespace or wildcards.
pub open spec fn runtime_topic_valid(topic: Seq<char>) -> bool {
    topic.len() > 0 && byte_len(topic) <= MAX_MQTT_TOPIC_BYTES && !has_control(topic)
        && !has_whitespace(topic) && !topic.contains('#') && !topic.contains('+')
}

/// Whether a concrete runtime topic is acceptable.
pub fn mqtt_runtime_topic_is_valid(topic: &str) -> (r: bool)
    ensures
        r == runtime_topic_valid(topic@),
{
    let chars = chars_of(topic);
    chars.len() > 0 && str_byte_len(topic) <= MAX_MQTT_TOPIC_BYTES && !seq_has_control(&chars)
        && !seq_has_whitespace(&chars) && !seq_contains_char(&chars, '#') && !seq_contains_char(
        &chars,
        '+',
    )
}

/// The text a placeholder stands for in a concrete value: the template is
/// split at the first occurrence of the placeholder, and the value must
/// carry the same prefix and suffix around a non-empty, slash-free,
/// control-free, whitespace-free piece.
pub open spec fn placeholder_value(template: Seq<char>, value: Seq<char>, placeholder: Seq<char>) -> Option<
    Seq<char>,
> {
    match first_occurrence(template, placeholder) {
        None => None,
        Some(i) => {
            let prefix = template.subrange(0, i);
            let suffix = template.subrange(i + placeholder.len(), template.len() as int);
            if !has_prefix(value, prefix) {
                None
            } else {
                let rest = value.subrange(prefix.len() as int, value.len() as int);
                if !has_suffix(rest, suffix) {
                    None
                } else {
                    let extracted = rest.subrange(0, rest.len() - suffix.len());
                    if extracted.len() == 0 || extracted.contains('/') || has_control(extracted)
                        || has_whitespace(extracted) {
                        None
                    } else {
                        Some(extracted)
                    }
                }
            }
        },
    }
}

/// A value built from the template by putting a valid segment in place of
/// the placeholder gives that segment back.
pub proof fn law_placeholder_round_trip(template: Seq<char>, placeholder: Seq<char>, id: Seq<char>)
    requires
        first_occurrence(template, placeholder) is Some,
        id.len() > 0,
        !id.contains('/'),
        !has_control(id),
        !has_whitespace(id),
    ensures
        ({
            let i = first_occurrence(template, placeholder)->Some_0;
            let prefix = template.subrange(0, i);
            let suffix = template.subrange(i + placeholder.len(), template.len() as int);
            placeholder_value(template, prefix + id + suffix, placeholder) == Some(id)
        }),
{
    lemma_find_from(template, placeholder, 0);
    let i = first_occurrence(template, placeholder)->Some_0;
    let prefix = template.subrange(0, i);
    let suffix = template.subrange(i + placeholder.len(), template.len() as int);
    let value = prefix + id + suffix;
    assert(value.subrange(0, prefix.len() as int) =~= prefix);
    let rest = value.subrange(prefix.len() as int, value.len() as int);
    assert(rest =~= id + suffix);
    assert(rest.subrange(rest.len() - suffix.len(), rest.len() as int) =~= suffix);
    assert(rest.subrange(0, rest.len() - suffix.len()) =~= id);
}

/// An extracted segment is the part of the value between the template's
/// prefix and suffix around the placeholder, and is a valid segment.
pub proof fn law_placeholder_value_is_between_prefix_and_suffix(
    template: Seq<char>,
    value: Seq<char>,
    placeholder: Seq<char>,
)
    requires
        placeholder_value(template, value, placeholder) is Some,
    ensures
        ({
            let x = placeholder_value(template, value, placeholder)->Some_0;
            let i = first_occurrence(template, placeholder)->Some_0;
            &&& x.len() > 0 && !x.contains('/') && !has_control(x) && !has_whitespace(x)
            &&& value == template.subrange(0, i) + x + template.subrange(
                i + placeholder.len(),
                template.len() as int,
            )
        }),
{
    lemma_find_from(template, placeholder, 0);
    let i = first_occurrence(template, placeholder)->Some_0;
    let prefix = template.subrange(0, i);
    let suffix = template.subrange(i + placeholder.len(), template.len() as int);
    let rest = value.subrange(prefix.len() as int, value.len() as int);
    let x = rest.subrange(0, rest.len() - suffix.len());
    assert(rest =~= x + suffix);
    assert(value =~= prefix + x + suffix);
}

/// Extracts a single path-segment placeholder value from a concrete topic.
pub fn extract_mqtt_placeholder_value(template: &str, value: &str, placeholder: &str) -> (r: Option<
    String,
>)
    ensures
        match r {
            Some(s) => placeholder_value(template@, value@, placeholder@) == Some(s@),
            None => placeholder_value(template@, value@, placeholder@) is None,
        },
{
    let t = chars_of(template);
    let v = chars_of(value);
    let p = chars_of(placeholder);
    proof {
        lemma_find_from(t@, p@, 0);
    }
    let i = match crate::text::find_seq(&t, &p) {
        Some(i) => i,
        None => {
            return None;
        },
    };
    assert(crate::text::occurs_at(t@, p@, i as int));
    assert(i + p@.len() <= t@.len());
    assert(i as int + p.len() as int <= t.len() as int);
    let prefix_end = i;
    let suffix_start = i + p.len();
    let prefix = crate::text::chars_of(string_from_subrange(&t, 0, prefix_end).as_str());
    let suffix = crate::text::chars_of(string_from_subrange(&t, suffix_start, t.len()).as_str());
    if !crate::text::starts_with(&v, &prefix) {
        return None;
    }
    let rest = chars_of(string_from_subrange(&v, prefix.len(), v.len()).as_str());
    if !crate::text::ends_with(&rest, &suffix) {
        return None;
    }
    let extracted = chars_of(string_from_subrange(&rest, 0, rest.len() - suffix.len()).as_str());
    if extracted.len() == 0 || seq_contains_char(&extracted, '/') || seq_has_control(&extracted)
        || seq_has_whitespace(&extracted) {
        return None;
    }
    Some(string_from_chars(extracted.as_slice()))
}

/// `str::replace`: every non-overlapping occurrence of `pat`, from the left,
/// replaced by `rep`.
pub open spec fn replace_all(s: Seq<char>, pat: Seq<char>, rep: Seq<char>) -> Seq<char>
    decreases s.len(),
{
    if pat.len() == 0 {
        s
    } else {
        match first_occurrence(s, pat) {
            None => s,
            Some(i) => {
                proof {
                    lemma_find_from(s, pat, 0);
                }
                s.subrange(0, i) + rep + replace_all(
                    s.subrange(i + pat.len(), s.len() as int),
                    pat,
                    rep,
                )
            },
        }
    }
}

/// Replaces every occurrence of a non-empty pattern.
pub fn replace_text(s: &str, pat: &str, rep: &str) -> (r: String)
    requires
        pat@.len() > 0,
    ensures
        r@ == replace_all(s@, pat@, rep@),
{
    let p = chars_of(pat);
    let mut rest = chars_of(s);
    let mut out = String::new();
    loop
        invariant
            p@ == pat@,
            p@.len() > 0,
            out@ + replace_all(rest@, pat@, rep@) == replace_all(s@, pat@, rep@),
        decreases rest.len(),
    {
        proof {
            lemma_find_from(rest@, p@, 0);
        }
        match crate::text::find_seq(&rest, &p) {
            None => {
                let tail = string_from_chars(rest.as_slice());
                push_str(&mut out, tail.as_str());
                return out;
            },
            Some(i) => {
                let head = string_from_subrange(&rest, 0, i);
                let ghost old_rest = rest@;
                let ghost old_out = out@;
                push_str(&mut out, head.as_str());
                push_str(&mut out, rep);
                let next = chars_of(string_from_subrange(&rest, i + p.len(), rest.len()).as_str());
                rest = next;
                assert(old_out + replace_all(old_rest, pat@, rep@) =~= out@ + replace_all(
                    rest@,
                    pat@,
                    rep@,
                ));
            },
        }
    }
}

/// The topics of an MQTT command/state contract.
#[derive(Debug)]
pub struct MqttContractTopics {
    pub name: String,
    pub command_topic: String,
    pub state_topic: String,
}

/// A publish topic matched to an MQTT contract: the contract, the device id
/// taken from the topic and the state topic derived for it.
pub struct MqttContractPublishMatch<'a> {
    pub contract: &'a MqttContractTopics,
    pub device_id: String,
    pub state_topic: String,
}

/// How a concrete command topic matches a contract: the device id and the
/// state topic.
pub open spec fn contract_match(
    command_topic: Seq<char>,
    state_topic: Seq<char>,
    topic: Seq<char>,
) -> Option<(Seq<char>, Seq<char>)> {
    if !runtime_topic_valid(topic) {
        None
    } else {
        match placeholder_value(command_topic, topic, "{device_id}"@) {
            None => None,
            Some(device_id) => {
                let state = replace_all(state_topic, "{device_id}"@, device_id);
                if runtime_topic_valid(state) {
                    Some((device_id, state))
                } else {
                    None
                }
            },
        }
    }
}

/// Matches one MQTT contract against a concrete command topic.
pub fn match_mqtt_contract<'a>(contract: &'a MqttContractTopics, topic: &str) -> (r: Option<
    MqttContractPublishMatch<'a>,
>)
    ensures
        match r {
            Some(m) => contract_match(contract.command_topic@, contract.state_topic@, topic@) == Some(
                (m.device_id@, m.state_topic@),
            ) && m.contract == contract,
            None => contract_match(contract.command_topic@, contract.state_topic@, topic@) is None,
        },
{
    if !mqtt_runtime_topic_is_valid(topic) {
        return None;
    }
    let device_id = match extract_mqtt_placeholder_value(
        contract.command_topic.as_str(),
        topic,
        "{device_id}",
    ) {
        Some(d) => d,
        None => {
            return None;
        },
    };
    proof {
        reveal_strlit("{device_id}");
    }
    let state_topic = replace_text(contract.state_topic.as_str(), "{device_id}", device_id.as_str());
    if !mqtt_runtime_topic_is_valid(state_topic.as_str()) {
        return None;
    }
    Some(MqttContractPublishMatch { contract, device_id, state_topic })
}

/// Matches a concrete command topic against contracts; the first contract
/// that matches wins.
pub fn match_mqtt_contracts<'a>(contracts: &'a [MqttContractTopics], topic: &str) -> (r: Option<
    MqttContractPublishMatch<'a>,
>)
    ensures
        match r {
            Some(m) => exists|i: int|
                0 <= i < contracts@.len() && m.contract == &contracts@[i] && contract_match(
                    contracts@[i].command_topic@,
                    contracts@[i].state_topic@,
                    topic@,
                ) == Some((m.device_id@, m.state_topic@)) && forall|j: int|
                    0 <= j < i ==> contract_match(
                        #[trigger] contracts@[j].command_topic@,
                        contracts@[j].state_topic@,
                        topic@,
                    ) is None,
            None => forall|j: int|
                0 <= j < contracts@.len() ==> contract_match(
                    #[trigger] contracts@[j].command_topic@,
                    contracts@[j].state_topic@,
                    topic@,
                ) is None,
        },
{
    let mut i: usize = 0;
    while i < contracts.len()
        invariant
            i <= contracts@.len(),
            forall|j: int|
                0 <= j < i ==> contract_match(
                    #[trigger] contracts@[j].command_topic@,
                    contracts@[j].state_topic@,
                    topic@,
                ) is None,
        decreases contracts.len() - i,
    {
        match match_mqtt_contract(&contracts[i], topic) {
            Some(m) => {
                return Some(m);
            },
            None => {},
        }
        i = i + 1;
    }
    None
}

} // verus!

//! Scenario time: duration tokens such as `15s`, `2m` or `1h`, and offsets
//! relative to the scenario start such as `T+30s`. Durations are handed out
//! in milliseconds; chrono decides which durations exist.

use vstd::prelude::*;

use crate::checks::{all_digits, digits_value, parse_digits_u64};
use crate::scenario::ScenarioError;
use crate::text::{chars_of, is_ascii_digit, str_eq, string_from_subrange, to_owned};

verus! {

/// The largest number of whole seconds a chrono `TimeDelta` holds.
pub open spec fn max_delta_seconds() -> int {
    9223372036854775
}

/// `TimeDelta::try_seconds`, read back with `num_milliseconds`. chrono
/// builds a delta of `seconds` exactly when it lies within
/// ±`i64::MAX / 1000` seconds, and it holds `seconds * 1000` milliseconds.
#[verifier::external_body]
fn delta_seconds(seconds: i64) -> (r: Option<i64>)
    ensures
        match r {
            Some(ms) => -max_delta_seconds() <= seconds <= max_delta_seconds() && ms == seconds
                * 1000,
            None => !(-max_delta_seconds() <= seconds <= max_delta_seconds()),
        },
{
    match chrono::TimeDelta::try_seconds(seconds) {
        Some(d) => Some(d.num_milliseconds()),
        None => None,
    }
}

/// `TimeDelta::try_minutes`, read back with `num_milliseconds`: chrono
/// multiplies by 60 with an overflow check and then builds the seconds.
#[verifier::external_body]
fn delta_minutes(minutes: i64) -> (r: Option<i64>)
    ensures
        match r {
            Some(ms) => -max_delta_seconds() <= minutes * 60 <= max_delta_seconds() && ms
                == minutes * 60000,
            None => !(-max_delta_seconds() <= minutes * 60 <= max_delta_seconds()),
        },
{
    match chrono::TimeDelta::try_minutes(minutes) {
        Some(d) => Some(d.num_milliseconds()),
        None => None,
    }
}

/// `TimeDelta::try_hours`, read back with `num_milliseconds`: chrono
/// multiplies by 3600 with an overflow check and then builds the seconds.
#[verifier::external_body]
fn delta_hours(hours: i64) -> (r: Option<i64>)
    ensures
        match r {
            Some(ms) => -max_delta_seconds() <= hours * 3600 <= max_delta_seconds() && ms == hours
                * 3600000,
            None => !(-max_delta_seconds() <= hours * 3600 <= max_delta_seconds()),
        },
{
    match chrono::TimeDelta::try_hours(hours) {
        Some(d) => Some(d.num_milliseconds()),
        None => None,
    }
}

/// The index of the first character that is not an ASCII digit.
pub open spec fn first_non_digit(s: Seq<char>) -> Option<int> {
    if exists|i: int| 0 <= i < s.len() && !is_ascii_digit(s[i]) {
        Some(
            choose|i: int|
                0 <= i < s.len() && !is_ascii_digit(s[i]) && forall|j: int|
                    0 <= j < i ==> is_ascii_digit(s[j]),
        )
    } else {
        None
    }
}

/// The milliseconds a duration token stands for: an `i64` amount of
/// digits followed by `s`, `m` or `h`, within what chrono can hold.
pub open spec fn duration_millis(value: Seq<char>) -> Option<int> {
    match first_non_digit(value) {
        None => None,
        Some(k) => {
            let amount = value.subrange(0, k);
            let unit = value.subrange(k, value.len() as int);
            let n = digits_value(amount) as int;
            if k == 0 || n > i64::MAX {
                None
            } else if unit == "s"@ {
                if n <= max_delta_seconds() {
                    Some(n * 1000)
                } else {
                    None
                }
            } else if unit == "m"@ {
                if n * 60 <= max_delta_seconds() {
                    Some(n * 60000)
                } else {
                    None
                }
            } else if unit == "h"@ {
                if n * 3600 <= max_delta_seconds() {
                    Some(n * 3600000)
                } else {
                    None
                }
            } else {
                None
            }
        },
    }
}

/// Parses a duration token like `15s`, `2m` or `1h` into milliseconds.
pub fn parse_duration(value: &str) -> (r: Result<i64, ScenarioError>)
    ensures
        match r {
            Ok(ms) => duration_millis(value@) == Some(ms as int),
            Err(ScenarioError::InvalidDuration(v)) => duration_millis(value@) is None && v@
                == value@,
            Err(_) => false,
        },
{
    let chars = chars_of(value);
    let mut k: usize = 0;
    while k < chars.len() && crate::text::char_is_ascii_digit(chars[k])
        invariant
            k <= chars.len(),
            chars@ == value@,
            forall|j: int| 0 <= j < k ==> is_ascii_digit(#[trigger] chars@[j]),
        decreases chars.len() - k,
    {
        k = k + 1;
    }
    if k == chars.len() {
        return Err(ScenarioError::InvalidDuration(to_owned(value)));
    }
    assert(first_non_digit(value@) == Some(k as int));
    if k == 0 {
        return Err(ScenarioError::InvalidDuration(to_owned(value)));
    }
    proof {
        assert(all_digits(chars@.subrange(0, k as int)));
    }
    let amount = match parse_digits_u64(&chars, 0, k) {
        Some(n) => n,
        None => {
            return Err(ScenarioError::InvalidDuration(to_owned(value)));
        },
    };
    if amount > 9223372036854775807u64 {
        return Err(ScenarioError::InvalidDuration(to_owned(value)));
    }
    let amount = amount as i64;
    let unit = string_from_subrange(&chars, k, chars.len());
    let millis = if str_eq(unit.as_str(), "s") {
        delta_seconds(amount)
    } else if str_eq(unit.as_str(), "m") {
        delta_minutes(amount)
    } else if str_eq(unit.as_str(), "h") {
        delta_hours(amount)
    } else {
        None
    };
    match millis {
        Some(ms) => Ok(ms),
        None => Err(ScenarioError::InvalidDuration(to_owned(value))),
    }
}

/// What a relative time expression resolves to, in milliseconds: `T` is
/// the start; `T+<duration>` and `T-<duration>` lie after and before it.
/// `Err(true)` is an invalid expression, `Err(false)` an invalid duration.
pub open spec fn offset_millis(expression: Seq<char>) -> Result<int, bool> {
    if expression == "T"@ {
        Ok(0)
    } else if expression.len() == 0 || expression[0] != 'T' {
        Err(true)
    } else {
        match duration_millis(expression.subrange(2, expression.len() as int)) {
            None => Err(false),
            Some(ms) => if expression[1] == '+' {
                Ok(ms)
            } else if expression[1] == '-' {
                Ok(-ms)
            } else {
                Err(true)
            },
        }
    }
}

/// Resolves a relative time expression like `T+30s` into milliseconds.
pub fn resolve_time_offset(expression: &str) -> (r: Result<i64, ScenarioError>)
    requires
        expression@.len() >= 2 && expression@[0] == 'T' ==> (expression@[1] as u32) < 128,
    ensures
        match r {
            Ok(ms) => offset_millis(expression@) == Ok::<int, bool>(ms as int),
            Err(ScenarioError::InvalidRelativeTime(e)) => offset_millis(expression@) == Err::<
                int,
                bool,
            >(true) && e@ == expression@,
            Err(ScenarioError::InvalidDuration(d)) => offset_millis(expression@) == Err::<
                int,
                bool,
            >(false) && d@ == expression@.subrange(2, expression@.len() as int),
            Err(_) => false,
        },
{
    if str_eq(expression, "T") {
        return Ok(0);
    }
    let chars = chars_of(expression);
    if chars.len() == 0 || chars[0] != 'T' {
        return Err(ScenarioError::InvalidRelativeTime(to_owned(expression)));
    }
    if chars.len() < 2 {
        proof {
            reveal_strlit("T");
            assert(expression@ =~= "T"@);
        }
        return Err(ScenarioError::InvalidRelativeTime(to_owned(expression)));
    }
    let sign = chars[1];
    let rest = string_from_subrange(&chars, 2, chars.len());
    let duration = parse_duration(rest.as_str())?;
    if sign == '+' {
        Ok(duration)
    } else if sign == '-' {
        Ok(-duration)
    } else {
        Err(ScenarioError::InvalidRelativeTime(to_owned(expression)))
    }
}

} // verus!

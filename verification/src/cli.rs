//! Command-line checks: the external MQTT evaluation contract and run ids,
//! the verdict of an external run, and the shell-safe next-steps hint that
//! `roomci init` prints.

use vstd::prelude::*;

use crate::checks::replace_all;
use crate::text::{
    char_is_ascii_alphanumeric, chars_of, concat2, concat3, has_control, is_ascii_alphanumeric,
    push_str, seq_has_control, str_byte_len, str_eq, byte_len, to_owned,
};

verus! {

/// The external MQTT evaluation contract.
#[derive(Debug)]
pub struct Contract {
    pub scenario: String,
    pub broker_host: String,
    pub broker_port: u16,
    pub proxy_host: String,
    pub proxy_api_port: u16,
    pub proxy_port: u16,
    pub proxy_name: String,
    pub device_id: String,
    pub initial_value: String,
    pub latest_value: String,
    pub ready_timeout_ms: u64,
    pub fault_timeout_ms: u64,
    pub recovery_timeout_ms: u64,
    pub stability_ms: u64,
}

/// 1 to 128 bytes without control characters.
pub open spec fn printable_field(s: Seq<char>) -> bool {
    s.len() > 0 && byte_len(s) <= 128 && !has_control(s)
}

pub open spec fn all_chars(s: Seq<char>, p: spec_fn(char) -> bool) -> bool {
    forall|i: int| 0 <= i < s.len() ==> p(#[trigger] s[i])
}

pub open spec fn device_id_char(c: char) -> bool {
    is_ascii_alphanumeric(c) || c == '-'
}

pub open spec fn proxy_name_char(c: char) -> bool {
    is_ascii_alphanumeric(c) || c == '-' || c == '_'
}

pub open spec fn host_char(c: char) -> bool {
    is_ascii_alphanumeric(c) || c == '.' || c == '-' || c == ':'
}

pub open spec fn timeout_ok(v: u64) -> bool {
    100 <= v <= 120000
}

/// The first problem of an external MQTT contract, in checking order.
pub open spec fn contract_problem(c: Contract) -> Option<Seq<char>> {
    if !printable_field(c.scenario@) {
        Some("scenario must contain 1..128 printable characters"@)
    } else if !printable_field(c.broker_host@) {
        Some("broker_host must contain 1..128 printable characters"@)
    } else if !printable_field(c.proxy_host@) {
        Some("proxy_host must contain 1..128 printable characters"@)
    } else if !printable_field(c.proxy_name@) {
        Some("proxy_name must contain 1..128 printable characters"@)
    } else if !printable_field(c.device_id@) {
        Some("device_id must contain 1..128 printable characters"@)
    } else if !printable_field(c.initial_value@) {
        Some("initial_value must contain 1..128 printable characters"@)
    } else if !printable_field(c.latest_value@) {
        Some("latest_value must contain 1..128 printable characters"@)
    } else if !all_chars(c.device_id@, |ch: char| device_id_char(ch)) {
        Some("device_id must use ASCII letters, digits or hyphens"@)
    } else if !all_chars(c.proxy_name@, |ch: char| proxy_name_char(ch)) {
        Some("proxy_name must use ASCII letters, digits, hyphens or underscores"@)
    } else if !all_chars(c.broker_host@, |ch: char| host_char(ch)) {
        Some("broker_host must be a DNS name or IP address"@)
    } else if !all_chars(c.proxy_host@, |ch: char| host_char(ch)) {
        Some("proxy_host must be a DNS name or IP address"@)
    } else if c.initial_value@ == c.latest_value@ {
        Some("initial_value and latest_value must differ"@)
    } else if c.broker_port == 0 || c.proxy_api_port == 0 || c.proxy_port == 0 {
        Some("network ports must be nonzero"@)
    } else if !timeout_ok(c.ready_timeout_ms) {
        Some("ready_timeout_ms must be 100..120000"@)
    } else if !timeout_ok(c.fault_timeout_ms) {
        Some("fault_timeout_ms must be 100..120000"@)
    } else if !timeout_ok(c.recovery_timeout_ms) {
        Some("recovery_timeout_ms must be 100..120000"@)
    } else if !timeout_ok(c.stability_ms) {
        Some("stability_ms must be 100..120000"@)
    } else {
        None
    }
}

fn printable(value: &str) -> (r: bool)
    ensures
        r == printable_field(value@),
{
    let chars = chars_of(value);
    chars.len() > 0 && str_byte_len(value) <= 128 && !seq_has_control(&chars)
}

/// Whether every character is an ASCII letter or digit or one of `extra`.
fn all_allowed(value: &str, extra: &str) -> (r: bool)
    ensures
        r == all_chars(value@, |c: char| is_ascii_alphanumeric(c) || extra@.contains(c)),
{
    let chars = chars_of(value);
    let allowed = chars_of(extra);
    let mut i: usize = 0;
    while i < chars.len()
        invariant
            i <= chars.len(),
            chars@ == value@,
            allowed@ == extra@,
            forall|j: int| 0 <= j < i ==> is_ascii_alphanumeric(#[trigger] chars@[j]) || extra@.contains(
                chars@[j],
            ),
        decreases chars.len() - i,
    {
        let c = chars[i];
        if !(char_is_ascii_alphanumeric(c) || crate::text::seq_contains_char(&allowed, c)) {
            assert(!(is_ascii_alphanumeric(value@[i as int]) || extra@.contains(value@[i as int])));
            return false;
        }
        i = i + 1;
    }
    true
}

impl Contract {
    /// Checks the contract; the error names the first field that is wrong.
    pub fn validate(&self) -> (r: Result<(), String>)
        ensures
            match r {
                Ok(()) => contract_problem(*self) is None,
                Err(m) => contract_problem(*self) == Some(m@),
            },
    {
        if !printable(self.scenario.as_str()) {
            return Err(to_owned("scenario must contain 1..128 printable characters"));
        }
        if !printable(self.broker_host.as_str()) {
            return Err(to_owned("broker_host must contain 1..128 printable characters"));
        }
        if !printable(self.proxy_host.as_str()) {
            return Err(to_owned("proxy_host must contain 1..128 printable characters"));
        }
        if !printable(self.proxy_name.as_str()) {
            return Err(to_owned("proxy_name must contain 1..128 printable characters"));
        }
        if !printable(self.device_id.as_str()) {
            return Err(to_owned("device_id must contain 1..128 printable characters"));
        }
        if !printable(self.initial_value.as_str()) {
            return Err(to_owned("initial_value must contain 1..128 printable characters"));
        }
        if !printable(self.latest_value.as_str()) {
            return Err(to_owned("latest_value must contain 1..128 printable characters"));
        }
        proof {
            reveal_strlit("-");
            reveal_strlit("-_");
            reveal_strlit(".-:");
        }
        if !all_allowed(self.device_id.as_str(), "-") {
            proof {
                let v = self.device_id@;
                let j = choose|j: int| 0 <= j < v.len() && !(is_ascii_alphanumeric(v[j]) || "-"@.contains(v[j]));
                if v[j] == '-' {
                    assert("-"@[0] == '-');
                }
                assert(!device_id_char(v[j]));
            }
            assert(!all_chars(self.device_id@, |ch: char| device_id_char(ch)));
            return Err(to_owned("device_id must use ASCII letters, digits or hyphens"));
        }
        if !all_allowed(self.proxy_name.as_str(), "-_") {
            proof {
                let v = self.proxy_name@;
                let j = choose|j: int| 0 <= j < v.len() && !(is_ascii_alphanumeric(v[j]) || "-_"@.contains(v[j]));
                if v[j] == '-' {
                    assert("-_"@[0] == '-');
                }
                if v[j] == '_' {
                    assert("-_"@[1] == '_');
                }
                assert(!proxy_name_char(v[j]));
            }
            assert(!all_chars(self.proxy_name@, |ch: char| proxy_name_char(ch)));
            return Err(to_owned("proxy_name must use ASCII letters, digits, hyphens or underscores"));
        }
        if !all_allowed(self.broker_host.as_str(), ".-:") {
            proof {
                let v = self.broker_host@;
                let j = choose|j: int| 0 <= j < v.len() && !(is_ascii_alphanumeric(v[j]) || ".-:"@.contains(v[j]));
                if v[j] == '.' {
                    assert(".-:"@[0] == '.');
                }
                if v[j] == '-' {
                    assert(".-:"@[1] == '-');
                }
                if v[j] == ':' {
                    assert(".-:"@[2] == ':');
                }
                assert(!host_char(v[j]));
            }
            assert(!all_chars(self.broker_host@, |ch: char| host_char(ch)));
            return Err(to_owned("broker_host must be a DNS name or IP address"));
        }
        if !all_allowed(self.proxy_host.as_str(), ".-:") {
            proof {
                let v = self.proxy_host@;
                let j = choose|j: int| 0 <= j < v.len() && !(is_ascii_alphanumeric(v[j]) || ".-:"@.contains(v[j]));
                if v[j] == '.' {
                    assert(".-:"@[0] == '.');
                }
                if v[j] == '-' {
                    assert(".-:"@[1] == '-');
                }
                if v[j] == ':' {
                    assert(".-:"@[2] == ':');
                }
                assert(!host_char(v[j]));
            }
            assert(!all_chars(self.proxy_host@, |ch: char| host_char(ch)));
            return Err(to_owned("proxy_host must be a DNS name or IP address"));
        }
        assert(all_chars(self.device_id@, |ch: char| device_id_char(ch)));
        assert(all_chars(self.proxy_name@, |ch: char| proxy_name_char(ch)));
        assert(all_chars(self.broker_host@, |ch: char| host_char(ch)));
        assert(all_chars(self.proxy_host@, |ch: char| host_char(ch)));
        if str_eq(self.initial_value.as_str(), self.latest_value.as_str()) {
            return Err(to_owned("initial_value and latest_value must differ"));
        }
        if self.broker_port == 0 || self.proxy_api_port == 0 || self.proxy_port == 0 {
            return Err(to_owned("network ports must be nonzero"));
        }
        if !(100 <= self.ready_timeout_ms && self.ready_timeout_ms <= 120000) {
            return Err(to_owned("ready_timeout_ms must be 100..120000"));
        }
        if !(100 <= self.fault_timeout_ms && self.fault_timeout_ms <= 120000) {
            return Err(to_owned("fault_timeout_ms must be 100..120000"));
        }
        if !(100 <= self.recovery_timeout_ms && self.recovery_timeout_ms <= 120000) {
            return Err(to_owned("recovery_timeout_ms must be 100..120000"));
        }
        if !(100 <= self.stability_ms && self.stability_ms <= 120000) {
            return Err(to_owned("stability_ms must be 100..120000"));
        }
        Ok(())
    }
}

/// A run id: 1 to 64 ASCII letters, digits or hyphens.
pub open spec fn valid_run_id(s: Seq<char>) -> bool {
    s.len() > 0 && byte_len(s) <= 64 && all_chars(s, |c: char| device_id_char(c))
}

pub fn validate_run_id(run_id: &str) -> (r: Result<(), String>)
    ensures
        match r {
            Ok(()) => valid_run_id(run_id@),
            Err(m) => !valid_run_id(run_id@) && m@
                == "run_id must use 1..64 ASCII letters, digits or hyphens"@,
        },
{
    proof {
        reveal_strlit("-");
    }
    let chars = chars_of(run_id);
    if chars.len() == 0 || str_byte_len(run_id) > 64 || !all_allowed(run_id, "-") {
        proof {
            if chars.len() > 0 && byte_len(run_id@) <= 64 {
                let v = run_id@;
                let j = choose|j: int| 0 <= j < v.len() && !(is_ascii_alphanumeric(v[j]) || "-"@.contains(v[j]));
                if v[j] == '-' {
                    assert("-"@[0] == '-');
                }
                assert(!device_id_char(v[j]));
                assert(!all_chars(run_id@, |c: char| device_id_char(c)));
            }
        }
        return Err(to_owned("run_id must use 1..64 ASCII letters, digits or hyphens"));
    }
    assert(all_chars(run_id@, |c: char| device_id_char(c)));
    Ok(())
}

/// The outcome of an external evaluation.
#[derive(Debug)]
pub enum Outcome {
    Passed,
    Failed(&'static str),
    Inconclusive(String),
}

impl Outcome {
    pub open spec fn spec_reason(&self) -> Seq<char> {
        match self {
            Outcome::Passed => "latest_report_stable"@,
            Outcome::Failed(r) => r@,
            Outcome::Inconclusive(r) => r@,
        }
    }

    pub open spec fn spec_verdict(&self) -> Seq<char> {
        match self {
            Outcome::Passed => "passed"@,
            Outcome::Failed(_) => "failed"@,
            Outcome::Inconclusive(_) => "inconclusive"@,
        }
    }

    /// Why the evaluation ended as it did.
    pub fn reason(&self) -> (s: String)
        ensures
            s@ == self.spec_reason(),
    {
        match self {
            Outcome::Passed => to_owned("latest_report_stable"),
            Outcome::Failed(r) => to_owned(r),
            Outcome::Inconclusive(r) => r.clone(),
        }
    }

    /// The verdict label.
    pub fn verdict(&self) -> (s: &'static str)
        ensures
            s@ == self.spec_verdict(),
    {
        match self {
            Outcome::Passed => "passed",
            Outcome::Failed(_) => "failed",
            Outcome::Inconclusive(_) => "inconclusive",
        }
    }
}

pub open spec fn shell_safe_char(c: char) -> bool {
    is_ascii_alphanumeric(c) || c == '_' || c == '@' || c == '%' || c == '+' || c == '=' || c == ':'
        || c == ',' || c == '.' || c == '/' || c == '-'
}

/// A path as typed into a POSIX shell: as is when every character is
/// shell-safe, else single-quoted with each `'` written as `'"'"'`.
pub open spec fn shell_quoted(s: Seq<char>) -> Seq<char> {
    if s.len() > 0 && all_chars(s, |c: char| shell_safe_char(c)) {
        s
    } else {
        "'"@ + replace_all(s, "'"@, "'\"'\"'"@) + "'"@
    }
}

pub fn shell_quote(value: &str) -> (r: String)
    ensures
        r@ == shell_quoted(value@),
{
    proof {
        reveal_strlit("_@%+=:,./-");
        reveal_strlit("'");
    }
    let chars = chars_of(value);
    if chars.len() > 0 && all_allowed(value, "_@%+=:,./-") {
        assert(all_chars(value@, |c: char| shell_safe_char(c)));
        return to_owned(value);
    }
    proof {
        if value@.len() > 0 && all_chars(value@, |c: char| shell_safe_char(c)) {
            assert(all_chars(value@, |c: char| is_ascii_alphanumeric(c) || "_@%+=:,./-"@.contains(c))) by {
                assert forall|i: int| 0 <= i < value@.len() implies is_ascii_alphanumeric(#[trigger] value@[i])
                    || "_@%+=:,./-"@.contains(value@[i]) by {
                    let c = value@[i];
                    assert(shell_safe_char(c));
                    if !is_ascii_alphanumeric(c) {
                        if c == '_' { assert("_@%+=:,./-"@[0] == c); }
                        if c == '@' { assert("_@%+=:,./-"@[1] == c); }
                        if c == '%' { assert("_@%+=:,./-"@[2] == c); }
                        if c == '+' { assert("_@%+=:,./-"@[3] == c); }
                        if c == '=' { assert("_@%+=:,./-"@[4] == c); }
                        if c == ':' { assert("_@%+=:,./-"@[5] == c); }
                        if c == ',' { assert("_@%+=:,./-"@[6] == c); }
                        if c == '.' { assert("_@%+=:,./-"@[7] == c); }
                        if c == '/' { assert("_@%+=:,./-"@[8] == c); }
                        if c == '-' { assert("_@%+=:,./-"@[9] == c); }
                    }
                }
            }
        }
    }
    let inner = crate::checks::replace_text(value, "'", "'\"'\"'");
    concat3("'", inner.as_str(), "'")
}

/// A path that is the current directory as paths compare: a `.` followed
/// only by separators and further `.` segments (`./`, `.//`, `./.`).
pub open spec fn names_current_dir(root: Seq<char>) -> bool {
    &&& root.len() > 0 && root[0] == '.'
    &&& forall|i: int| 0 <= i < root.len() ==> #[trigger] root[i] == '.' || root[i] == '/'
    &&& forall|i: int| 0 <= i < root.len() - 1 ==> !(#[trigger] root[i] == '.' && root[i + 1] == '.')
}

fn is_current_dir(chars: &Vec<char>) -> (b: bool)
    ensures
        b == names_current_dir(chars@),
{
    if chars.len() == 0 || chars[0] != '.' {
        return false;
    }
    let mut i: usize = 0;
    while i < chars.len()
        invariant
            i <= chars.len(),
            chars@.len() > 0 && chars@[0] == '.',
            forall|j: int| 0 <= j < i ==> #[trigger] chars@[j] == '.' || chars@[j] == '/',
            forall|j: int| 0 <= j < i && j < chars@.len() - 1 ==> !(#[trigger] chars@[j] == '.' && chars@[j + 1] == '.'),
        decreases chars.len() - i,
    {
        let c = chars[i];
        if c != '.' && c != '/' {
            return false;
        }
        if c == '.' && i + 1 < chars.len() && chars[i + 1] == '.' {
            return false;
        }
        i = i + 1;
    }
    true
}

/// Where `roomci init` put the smoke scenario, as `Path::join` forms it;
/// for the current directory, the relative path alone.
pub open spec fn smoke_path(root: Seq<char>) -> Seq<char> {
    if names_current_dir(root) || root.len() == 0 {
        "roomci/smoke.yaml"@
    } else if root.last() == '/' {
        root + "roomci/smoke.yaml"@
    } else {
        root + "/roomci/smoke.yaml"@
    }
}

/// The commands to run after `roomci init` in `root`.
pub fn next_steps(root: &str) -> (r: String)
    ensures
        r@ == "next steps:\n  roomci validate "@ + shell_quoted(smoke_path(root@))
            + "\n  roomci run "@ + shell_quoted(smoke_path(root@)) + " --verbose"@,
{
    let chars = chars_of(root);
    let scenario = if is_current_dir(&chars) || chars.len() == 0 {
        to_owned("roomci/smoke.yaml")
    } else if chars[chars.len() - 1] == '/' {
        concat2(root, "roomci/smoke.yaml")
    } else {
        concat2(root, "/roomci/smoke.yaml")
    };
    let quoted = shell_quote(scenario.as_str());
    let mut out = to_owned("next steps:\n  roomci validate ");
    push_str(&mut out, quoted.as_str());
    push_str(&mut out, "\n  roomci run ");
    push_str(&mut out, quoted.as_str());
    push_str(&mut out, " --verbose");
    out
}

} // verus!

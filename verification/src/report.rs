//! Report rendering for run results: JUnit XML, Markdown, the bounded
//! GitHub step summary, and the stable timeline and observability exports.

use vstd::prelude::*;

use crate::strmap::StrMap;
use crate::text::{concat2, concat3, decimal, push_char, push_str, to_owned, usize_to_string};
use crate::value::Value;

verus! {

/// Top-level pass/fail result of a scenario run.
#[derive(Debug, Clone, Copy, PartialEq, Eq, Structural)]
pub enum RunResult {
    Passed,
    Failed,
}

/// One event of a scenario timeline.
#[derive(Debug)]
pub struct TimelineEvent {
    pub at: String,
    pub event_type: String,
    pub target: Option<String>,
    pub message: String,
}

/// The outcome of one assertion.
#[derive(Debug)]
pub struct AssertionResult {
    pub name: String,
    pub assertion_type: String,
    pub passed: bool,
    pub message: String,
    pub impact_level: Option<String>,
    pub impact_message: Option<String>,
    pub reference_id: Option<String>,
}

/// The outcome of a scenario run.
pub struct RunReport {
    pub schema_version: String,
    pub run_id: String,
    pub generated_by: String,
    pub scenario_name: String,
    pub result: RunResult,
    pub timeline: Vec<TimelineEvent>,
    pub assertions: Vec<AssertionResult>,
    pub final_state: StrMap<StrMap<Value>>,
    pub retained_messages: StrMap<StrMap<Value>>,
}

pub open spec fn opt_chars(o: Option<String>) -> Option<Seq<char>> {
    match o {
        Some(s) => Some(s@),
        None => None,
    }
}

// ---------------------------------------------------------------------------
// Labels and ids
// ---------------------------------------------------------------------------

pub open spec fn result_text(result: RunResult) -> Seq<char> {
    match result {
        RunResult::Passed => "passed"@,
        RunResult::Failed => "failed"@,
    }
}

/// The label of a run result.
pub fn result_label(result: RunResult) -> (s: &'static str)
    ensures
        s@ == result_text(result),
{
    match result {
        RunResult::Passed => "passed",
        RunResult::Failed => "failed",
    }
}

/// The trace id of a run.
pub fn stable_trace_id(run_id: &str) -> (s: String)
    ensures
        s@ == "roomci-trace-"@ + run_id@,
{
    concat2("roomci-trace-", run_id)
}

/// Decimal digits of `n`, left-padded with zeros to six places.
pub open spec fn padded6(n: nat) -> Seq<char> {
    let d = decimal(n);
    if d.len() < 6 {
        Seq::new((6 - d.len()) as nat, |i: int| '0') + d
    } else {
        d
    }
}

/// The span id of the event at `sequence` in a run.
pub fn stable_span_id(run_id: &str, sequence: usize) -> (s: String)
    ensures
        s@ == "roomci-span-"@ + run_id@ + "-"@ + padded6(sequence as nat),
{
    let mut s = concat3("roomci-span-", run_id, "-");
    let digits = usize_to_string(sequence);
    let n = crate::text::chars_of(digits.as_str()).len();
    let ghost before = s@;
    let mut pad: usize = 0;
    let missing: usize = if n < 6 {
        6 - n
    } else {
        0
    };
    while pad < missing
        invariant
            pad <= missing,
            s@ == before + Seq::new(pad as nat, |i: int| '0'),
        decreases missing - pad,
    {
        push_char(&mut s, '0');
        assert(s@ =~= before + Seq::new((pad + 1) as nat, |i: int| '0'));
        pad = pad + 1;
    }
    push_str(&mut s, digits.as_str());
    proof {
        if digits@.len() < 6 {
            assert(s@ =~= "roomci-span-"@ + run_id@ + "-"@ + padded6(sequence as nat));
        } else {
            assert(Seq::new(0nat, |i: int| '0') =~= Seq::<char>::empty());
            assert(s@ =~= "roomci-span-"@ + run_id@ + "-"@ + padded6(sequence as nat));
        }
    }
    s
}

/// The name an assertion carries in evidence: `<reference id> (<name>)`
/// when it has a reference id, else its name.
pub open spec fn evidence_name(a: AssertionResult) -> Seq<char> {
    match a.reference_id {
        Some(r) => r@ + " ("@ + a.name@ + ")"@,
        None => a.name@,
    }
}

pub fn evidence_assertion_name(assertion: &AssertionResult) -> (s: String)
    ensures
        s@ == evidence_name(*assertion),
{
    match &assertion.reference_id {
        Some(r) => {
            let mut s = concat3(r.as_str(), " (", assertion.name.as_str());
            push_str(&mut s, ")");
            s
        },
        None => assertion.name.clone(),
    }
}

// ---------------------------------------------------------------------------
// XML
// ---------------------------------------------------------------------------

/// Characters XML 1.0 allows in text, without the byte order mark.
pub open spec fn xml_char_allowed(c: char) -> bool {
    ||| c == '\t'
    ||| c == '\n'
    ||| c == '\r'
    ||| ('\u{20}' <= c && c <= '\u{D7FF}')
    ||| ('\u{E000}' <= c && c <= '\u{FFFD}' && c != '\u{FEFF}')
    ||| '\u{10000}' <= c
}

/// The XML text of one character.
pub open spec fn xml_char_text(c: char) -> Seq<char> {
    if !xml_char_allowed(c) {
        Seq::empty()
    } else if c == '&' {
        "&amp;"@
    } else if c == '<' {
        "&lt;"@
    } else if c == '>' {
        "&gt;"@
    } else if c == '"' {
        "&quot;"@
    } else if c == '\'' {
        "&apos;"@
    } else {
        seq![c]
    }
}

/// Text as XML shows it: characters XML forbids are dropped and markup
/// characters become entities.
pub open spec fn xml_escaped(s: Seq<char>) -> Seq<char>
    decreases s.len(),
{
    if s.len() == 0 {
        Seq::empty()
    } else {
        xml_escaped(s.drop_last()) + xml_char_text(s.last())
    }
}

/// Escapes text for XML attributes and character data.
pub fn escape_xml(value: &str) -> (s: String)
    ensures
        s@ == xml_escaped(value@),
{
    let chars = crate::text::chars_of(value);
    let mut out = String::new();
    let mut i: usize = 0;
    assert(chars@.take(0) =~= Seq::<char>::empty());
    while i < chars.len()
        invariant
            i <= chars.len(),
            chars@ == value@,
            out@ == xml_escaped(chars@.take(i as int)),
        decreases chars.len() - i,
    {
        let c = chars[i];
        assert(chars@.take(i + 1).drop_last() =~= chars@.take(i as int));
        let ghost before = out@;
        let allowed = c == '\t' || c == '\n' || c == '\r' || ('\u{20}' <= c && c <= '\u{D7FF}') || (
        '\u{E000}' <= c && c <= '\u{FFFD}' && c != '\u{FEFF}') || '\u{10000}' <= c;
        if !allowed {
            assert(out@ =~= before + xml_char_text(c));
        } else if c == '&' {
            push_str(&mut out, "&amp;");
        } else if c == '<' {
            push_str(&mut out, "&lt;");
        } else if c == '>' {
            push_str(&mut out, "&gt;");
        } else if c == '"' {
            push_str(&mut out, "&quot;");
        } else if c == '\'' {
            push_str(&mut out, "&apos;");
        } else {
            push_char(&mut out, c);
            assert(out@ =~= before + seq![c]);
        }
        i = i + 1;
    }
    assert(chars@.take(chars.len() as int) =~= chars@);
    out
}

/// The characters XML keeps of a text, in order.
pub open spec fn xml_kept(s: Seq<char>) -> Seq<char>
    decreases s.len(),
{
    if s.len() == 0 {
        Seq::empty()
    } else {
        xml_kept(s.drop_last()) + if xml_char_allowed(s.last()) {
            seq![s.last()]
        } else {
            Seq::<char>::empty()
        }
    }
}

/// The length of the entity (`&amp;`, `&lt;`, `&gt;`, `&quot;` or
/// `&apos;`) that starts `t`, if one does.
pub open spec fn entity_len(t: Seq<char>) -> int {
    if t.len() >= 5 && t[0] == '&' && t[1] == 'a' && t[2] == 'm' && t[3] == 'p' && t[4] == ';' {
        5
    } else if t.len() >= 4 && t[0] == '&' && t[1] == 'l' && t[2] == 't' && t[3] == ';' {
        4
    } else if t.len() >= 4 && t[0] == '&' && t[1] == 'g' && t[2] == 't' && t[3] == ';' {
        4
    } else if t.len() >= 6 && t[0] == '&' && t[1] == 'q' && t[2] == 'u' && t[3] == 'o' && t[4] == 't' && t[5]
        == ';' {
        6
    } else if t.len() >= 6 && t[0] == '&' && t[1] == 'a' && t[2] == 'p' && t[3] == 'o' && t[4] == 's' && t[5]
        == ';' {
        6
    } else {
        0
    }
}

/// The character an entity stands for.
pub open spec fn entity_char(t: Seq<char>) -> char {
    if t[1] == 'a' && t[2] == 'm' {
        '&'
    } else if t[1] == 'l' {
        '<'
    } else if t[1] == 'g' {
        '>'
    } else if t[1] == 'q' {
        '"'
    } else {
        '\''
    }
}

/// XML text read back: each of the five entities becomes its character.
pub open spec fn xml_unescape(t: Seq<char>) -> Seq<char>
    decreases t.len(),
{
    if t.len() == 0 {
        Seq::empty()
    } else if entity_len(t) > 0 {
        seq![entity_char(t)] + xml_unescape(t.subrange(entity_len(t), t.len() as int))
    } else {
        seq![t[0]] + xml_unescape(t.subrange(1, t.len() as int))
    }
}

/// Whether a character is XML markup that character data must not hold bare.
pub open spec fn is_markup(c: char) -> bool {
    c == '<' || c == '>' || c == '"' || c == '\''
}

proof fn lemma_escaped_concat(a: Seq<char>, b: Seq<char>)
    ensures
        xml_escaped(a + b) == xml_escaped(a) + xml_escaped(b),
    decreases b.len(),
{
    if b.len() == 0 {
        assert(a + b =~= a);
        assert(xml_escaped(a) + xml_escaped(b) =~= xml_escaped(a));
    } else {
        assert((a + b).drop_last() =~= a + b.drop_last());
        assert((a + b).last() == b.last());
        lemma_escaped_concat(a, b.drop_last());
        assert(xml_escaped(a + b) =~= xml_escaped(a) + xml_escaped(b));
    }
}

proof fn lemma_kept_concat(a: Seq<char>, b: Seq<char>)
    ensures
        xml_kept(a + b) == xml_kept(a) + xml_kept(b),
    decreases b.len(),
{
    if b.len() == 0 {
        assert(a + b =~= a);
        assert(xml_kept(a) + xml_kept(b) =~= xml_kept(a));
    } else {
        assert((a + b).drop_last() =~= a + b.drop_last());
        assert((a + b).last() == b.last());
        lemma_kept_concat(a, b.drop_last());
        assert(xml_kept(a + b) =~= xml_kept(a) + xml_kept(b));
    }
}

proof fn lemma_reveal_entities()
    ensures
        "&amp;"@ == seq!['&', 'a', 'm', 'p', ';'],
        "&lt;"@ == seq!['&', 'l', 't', ';'],
        "&gt;"@ == seq!['&', 'g', 't', ';'],
        "&quot;"@ == seq!['&', 'q', 'u', 'o', 't', ';'],
        "&apos;"@ == seq!['&', 'a', 'p', 'o', 's', ';'],
{
    reveal_strlit("&amp;");
    reveal_strlit("&lt;");
    reveal_strlit("&gt;");
    reveal_strlit("&quot;");
    reveal_strlit("&apos;");
    assert("&amp;"@ =~= seq!['&', 'a', 'm', 'p', ';']);
    assert("&lt;"@ =~= seq!['&', 'l', 't', ';']);
    assert("&gt;"@ =~= seq!['&', 'g', 't', ';']);
    assert("&quot;"@ =~= seq!['&', 'q', 'u', 'o', 't', ';']);
    assert("&apos;"@ =~= seq!['&', 'a', 'p', 'o', 's', ';']);
}

/// Reading back the XML text of one character followed by anything gives
/// the character (if XML keeps it) followed by what the rest reads as.
proof fn lemma_unescape_char_text(c: char, t: Seq<char>)
    ensures
        xml_unescape(xml_char_text(c) + t) == (if xml_char_allowed(c) {
            seq![c]
        } else {
            Seq::<char>::empty()
        }) + xml_unescape(t),
{
    lemma_reveal_entities();
    let u = xml_char_text(c) + t;
    let n = xml_char_text(c).len() as int;
    if !xml_char_allowed(c) {
        assert(u =~= t);
        assert(Seq::<char>::empty() + xml_unescape(t) =~= xml_unescape(t));
    } else {
        assert(u.subrange(n, u.len() as int) =~= t);
        if c == '&' || c == '<' || c == '>' || c == '"' || c == '\'' {
            assert(entity_len(u) == n);
            assert(entity_char(u) == c);
        } else {
            assert(xml_char_text(c) == seq![c]);
            assert(u[0] == c);
            assert(entity_len(u) == 0);
        }
    }
}

/// Escaping keeps exactly what XML allows: reading the escaped text back
/// gives the text without the characters XML forbids.
pub proof fn law_escape_xml_round_trip(s: Seq<char>)
    ensures
        xml_unescape(xml_escaped(s)) == xml_kept(s),
    decreases s.len(),
{
    if s.len() == 0 {
    } else {
        let head = s.subrange(0, 1);
        let rest = s.subrange(1, s.len() as int);
        assert(s =~= head + rest);
        lemma_escaped_concat(head, rest);
        lemma_kept_concat(head, rest);
        assert(head.drop_last() =~= Seq::<char>::empty());
        assert(xml_escaped(head.drop_last()) == Seq::<char>::empty());
        assert(xml_kept(head.drop_last()) == Seq::<char>::empty());
        assert(head.last() == s[0]);
        assert(xml_escaped(head) == xml_escaped(head.drop_last()) + xml_char_text(head.last()));
        assert(xml_escaped(head) =~= xml_char_text(s[0]));
        law_escape_xml_round_trip(rest);
        lemma_unescape_char_text(s[0], xml_escaped(rest));
        assert(xml_kept(head) =~= (if xml_char_allowed(s[0]) {
            seq![s[0]]
        } else {
            Seq::<char>::empty()
        }));
    }
}

/// Escaped text holds no bare markup, and each `&` in it starts one of the
/// five entities.
pub proof fn law_escape_xml_no_bare_markup(s: Seq<char>)
    ensures
        forall|i: int| 0 <= i < xml_escaped(s).len() ==> !is_markup(#[trigger] xml_escaped(s)[i]),
        forall|i: int|
            0 <= i < xml_escaped(s).len() && #[trigger] xml_escaped(s)[i] == '&' ==> entity_len(
                xml_escaped(s).subrange(i, xml_escaped(s).len() as int),
            ) > 0,
    decreases s.len(),
{
    lemma_reveal_entities();
    if s.len() > 0 {
        law_escape_xml_no_bare_markup(s.drop_last());
        let a = xml_escaped(s.drop_last());
        let b = xml_char_text(s.last());
        let e = xml_escaped(s);
        assert(e == a + b);
        assert forall|i: int| 0 <= i < e.len() implies !is_markup(#[trigger] e[i]) by {
            if i >= a.len() {
                assert(e[i] == b[i - a.len()]);
            } else {
                assert(e[i] == a[i]);
            }
        }
        assert forall|i: int| 0 <= i < e.len() && #[trigger] e[i] == '&' implies entity_len(
            e.subrange(i, e.len() as int),
        ) > 0 by {
            let tail = e.subrange(i, e.len() as int);
            if i >= a.len() {
                assert(e[i] == b[i - a.len()]);
                assert(i == a.len());
                assert(tail =~= b);
            } else {
                assert(e[i] == a[i]);
                let atail = a.subrange(i, a.len() as int);
                assert(entity_len(atail) > 0);
                assert forall|k: int| 0 <= k < entity_len(atail) implies tail[k] == atail[k] by {
                    assert(tail[k] == e[i + k]);
                    assert(e[i + k] == a[i + k]);
                }
            }
        }
    }
}

/// The `<testcase>` element of one assertion.
pub open spec fn testcase_text(a: AssertionResult) -> Seq<char> {
    let head = "  <testcase classname=\"roomci\" name=\""@ + xml_escaped(evidence_name(a)) + "\">"@;
    if a.passed {
        head + "</testcase>\n"@
    } else {
        let body = match a.impact_message {
            Some(m) => m@,
            None => a.message@,
        };
        head + "<failure message=\""@ + xml_escaped(a.message@) + "\">"@ + xml_escaped(body)
            + "</failure></testcase>\n"@
    }
}

pub fn testcase_xml(assertion: &AssertionResult) -> (s: String)
    ensures
        s@ == testcase_text(*assertion),
{
    let name = evidence_assertion_name(assertion);
    let mut out = to_owned("  <testcase classname=\"roomci\" name=\"");
    let e = escape_xml(name.as_str());
    push_str(&mut out, e.as_str());
    push_str(&mut out, "\">");
    if assertion.passed {
        push_str(&mut out, "</testcase>\n");
    } else {
        push_str(&mut out, "<failure message=\"");
        let m = escape_xml(assertion.message.as_str());
        push_str(&mut out, m.as_str());
        push_str(&mut out, "\">");
        let body = match &assertion.impact_message {
            Some(m) => escape_xml(m.as_str()),
            None => escape_xml(assertion.message.as_str()),
        };
        push_str(&mut out, body.as_str());
        push_str(&mut out, "</failure></testcase>\n");
    }
    out
}

/// The number of failed assertions among the first `n`.
pub open spec fn failed_count(assertions: Seq<AssertionResult>) -> nat
    decreases assertions.len(),
{
    if assertions.len() == 0 {
        0
    } else {
        failed_count(assertions.drop_last()) + if assertions.last().passed {
            0nat
        } else {
            1nat
        }
    }
}

pub open spec fn testcases_text(assertions: Seq<AssertionResult>) -> Seq<char>
    decreases assertions.len(),
{
    if assertions.len() == 0 {
        Seq::empty()
    } else {
        testcases_text(assertions.drop_last()) + testcase_text(assertions.last())
    }
}

/// A run report as JUnit XML: one test case per assertion.
pub open spec fn junit_text(report: RunReport) -> Seq<char> {
    "<?xml version=\"1.0\" encoding=\"UTF-8\"?>\n"@ + "<testsuite name=\""@ + xml_escaped(
        report.scenario_name@,
    ) + "\" tests=\""@ + decimal(report.assertions@.len()) + "\" failures=\""@ + decimal(
        failed_count(report.assertions@),
    ) + "\">\n"@ + testcases_text(report.assertions@) + "</testsuite>\n"@
}

fn count_failed(assertions: &Vec<AssertionResult>) -> (n: usize)
    ensures
        n == failed_count(assertions@),
        n <= assertions.len(),
{
    let mut n: usize = 0;
    let mut i: usize = 0;
    assert(assertions@.take(0) =~= Seq::<AssertionResult>::empty());
    while i < assertions.len()
        invariant
            i <= assertions.len(),
            n == failed_count(assertions@.take(i as int)),
            n <= i,
        decreases assertions.len() - i,
    {
        assert(assertions@.take(i + 1).drop_last() =~= assertions@.take(i as int));
        if !assertions[i].passed {
            n = n + 1;
        }
        i = i + 1;
    }
    assert(assertions@.take(assertions.len() as int) =~= assertions@);
    n
}

/// Renders a run report as JUnit XML.
pub fn to_junit(report: &RunReport) -> (s: String)
    ensures
        s@ == junit_text(*report),
{
    let failures = count_failed(&report.assertions);
    let mut out = to_owned("<?xml version=\"1.0\" encoding=\"UTF-8\"?>\n");
    push_str(&mut out, "<testsuite name=\"");
    let name = escape_xml(report.scenario_name.as_str());
    push_str(&mut out, name.as_str());
    push_str(&mut out, "\" tests=\"");
    let total = usize_to_string(report.assertions.len());
    push_str(&mut out, total.as_str());
    push_str(&mut out, "\" failures=\"");
    let failed = usize_to_string(failures);
    push_str(&mut out, failed.as_str());
    push_str(&mut out, "\">\n");
    let ghost head = out@;
    let mut i: usize = 0;
    assert(report.assertions@.take(0) =~= Seq::<AssertionResult>::empty());
    assert(out@ =~= head + testcases_text(report.assertions@.take(0)));
    while i < report.assertions.len()
        invariant
            i <= report.assertions.len(),
            out@ == head + testcases_text(report.assertions@.take(i as int)),
        decreases report.assertions.len() - i,
    {
        assert(report.assertions@.take(i + 1).drop_last() =~= report.assertions@.take(i as int));
        let case = testcase_xml(&report.assertions[i]);
        push_str(&mut out, case.as_str());
        assert(out@ =~= head + testcases_text(report.assertions@.take(i + 1)));
        i = i + 1;
    }
    assert(report.assertions@.take(report.assertions.len() as int) =~= report.assertions@);
    push_str(&mut out, "</testsuite>\n");
    out
}

// ---------------------------------------------------------------------------
// Markdown
// ---------------------------------------------------------------------------

pub open spec fn failed_lines(assertions: Seq<AssertionResult>) -> Seq<char>
    decreases assertions.len(),
{
    if assertions.len() == 0 {
        Seq::empty()
    } else {
        let a = assertions.last();
        failed_lines(assertions.drop_last()) + if a.passed {
            Seq::empty()
        } else {
            "- `"@ + evidence_name(a) + "`: "@ + a.message@ + "\n"@ + match a.impact_message {
                Some(m) => "  Guest impact: "@ + m@ + "\n"@,
                None => Seq::empty(),
            }
        }
    }
}

pub open spec fn assertion_lines(assertions: Seq<AssertionResult>) -> Seq<char>
    decreases assertions.len(),
{
    if assertions.len() == 0 {
        Seq::empty()
    } else {
        let a = assertions.last();
        assertion_lines(assertions.drop_last()) + "- ["@ + (if a.passed {
            "pass"@
        } else {
            "fail"@
        }) + "] `"@ + evidence_name(a) + "` — "@ + a.message@ + "\n"@
    }
}

pub open spec fn timeline_lines(events: Seq<TimelineEvent>) -> Seq<char>
    decreases events.len(),
{
    if events.len() == 0 {
        Seq::empty()
    } else {
        let e = events.last();
        timeline_lines(events.drop_last()) + "- `"@ + e.at@ + "` `"@ + e.event_type@ + "`"@ + match e.target {
            Some(t) => " `"@ + t@ + "`"@,
            None => Seq::empty(),
        } + ": "@ + e.message@ + "\n"@
    }
}

pub open spec fn recovery_lines(assertions: Seq<AssertionResult>) -> Seq<char>
    decreases assertions.len(),
{
    if assertions.len() == 0 {
        Seq::empty()
    } else {
        let a = assertions.last();
        recovery_lines(assertions.drop_last()) + if a.passed {
            Seq::empty()
        } else {
            "- "@ + match a.impact_message {
                Some(m) => m@,
                None => a.message@,
            } + "\n"@
        }
    }
}

/// A run report as Markdown: result, failed assertions, every assertion,
/// the timeline and the suggested recovery for each failure.
pub open spec fn markdown_text(report: RunReport) -> Seq<char> {
    let none_failed = failed_count(report.assertions@) == 0;
    "# roomci Report — "@ + report.scenario_name@ + "\n\n"@ + "Result: `"@ + result_text(
        report.result,
    ) + "`\n\n"@ + "## Failed Assertions\n\n"@ + (if none_failed {
        "None.\n\n"@
    } else {
        failed_lines(report.assertions@) + "\n"@
    }) + "## Assertions\n\n"@ + assertion_lines(report.assertions@) + "\n"@ + "## Timeline\n\n"@
        + timeline_lines(report.timeline@) + "\n"@ + "## Suggested Recovery\n\n"@ + (if none_failed {
        "None.\n"@
    } else {
        recovery_lines(report.assertions@)
    })
}

/// Renders a run report as Markdown.
pub fn to_markdown(report: &RunReport) -> (s: String)
    ensures
        s@ == markdown_text(*report),
{
    let failures = count_failed(&report.assertions);
    let mut out = concat3("# roomci Report — ", report.scenario_name.as_str(), "\n\n");
    push_str(&mut out, "Result: `");
    push_str(&mut out, result_label(report.result));
    push_str(&mut out, "`\n\n");
    push_str(&mut out, "## Failed Assertions\n\n");
    let n = report.assertions.len();
    if failures == 0 {
        push_str(&mut out, "None.\n\n");
    } else {
        let ghost head = out@;
        let mut i: usize = 0;
        assert(report.assertions@.take(0) =~= Seq::<AssertionResult>::empty());
        assert(out@ =~= head + failed_lines(report.assertions@.take(0)));
        while i < n
            invariant
                i <= n == report.assertions.len(),
                out@ == head + failed_lines(report.assertions@.take(i as int)),
            decreases n - i,
        {
            assert(report.assertions@.take(i + 1).drop_last() =~= report.assertions@.take(i as int));
            let a = &report.assertions[i];
            let ghost before = out@;
            if !a.passed {
                push_str(&mut out, "- `");
                let name = evidence_assertion_name(a);
                push_str(&mut out, name.as_str());
                push_str(&mut out, "`: ");
                push_str(&mut out, a.message.as_str());
                push_str(&mut out, "\n");
                match &a.impact_message {
                    Some(m) => {
                        push_str(&mut out, "  Guest impact: ");
                        push_str(&mut out, m.as_str());
                        push_str(&mut out, "\n");
                    },
                    None => {},
                }
            }
            assert(out@ =~= head + failed_lines(report.assertions@.take(i + 1)));
            i = i + 1;
        }
        assert(report.assertions@.take(n as int) =~= report.assertions@);
        push_str(&mut out, "\n");
    }
    push_str(&mut out, "## Assertions\n\n");
    let ghost head = out@;
    let mut i: usize = 0;
    assert(report.assertions@.take(0) =~= Seq::<AssertionResult>::empty());
    assert(out@ =~= head + assertion_lines(report.assertions@.take(0)));
    while i < n
        invariant
            i <= n == report.assertions.len(),
            out@ == head + assertion_lines(report.assertions@.take(i as int)),
        decreases n - i,
    {
        assert(report.assertions@.take(i + 1).drop_last() =~= report.assertions@.take(i as int));
        let a = &report.assertions[i];
        push_str(&mut out, "- [");
        push_str(
            &mut out,
            if a.passed {
                "pass"
            } else {
                "fail"
            },
        );
        push_str(&mut out, "] `");
        let name = evidence_assertion_name(a);
        push_str(&mut out, name.as_str());
        push_str(&mut out, "` — ");
        push_str(&mut out, a.message.as_str());
        push_str(&mut out, "\n");
        assert(out@ =~= head + assertion_lines(report.assertions@.take(i + 1)));
        i = i + 1;
    }
    assert(report.assertions@.take(n as int) =~= report.assertions@);
    push_str(&mut out, "\n");
    push_str(&mut out, "## Timeline\n\n");
    let ghost head = out@;
    let m = report.timeline.len();
    let mut j: usize = 0;
    assert(report.timeline@.take(0) =~= Seq::<TimelineEvent>::empty());
    assert(out@ =~= head + timeline_lines(report.timeline@.take(0)));
    while j < m
        invariant
            j <= m == report.timeline.len(),
            out@ == head + timeline_lines(report.timeline@.take(j as int)),
        decreases m - j,
    {
        assert(report.timeline@.take(j + 1).drop_last() =~= report.timeline@.take(j as int));
        let e = &report.timeline[j];
        push_str(&mut out, "- `");
        push_str(&mut out, e.at.as_str());
        push_str(&mut out, "` `");
        push_str(&mut out, e.event_type.as_str());
        push_str(&mut out, "`");
        match &e.target {
            Some(t) => {
                push_str(&mut out, " `");
                push_str(&mut out, t.as_str());
                push_str(&mut out, "`");
            },
            None => {},
        }
        push_str(&mut out, ": ");
        push_str(&mut out, e.message.as_str());
        push_str(&mut out, "\n");
        assert(out@ =~= head + timeline_lines(report.timeline@.take(j + 1)));
        j = j + 1;
    }
    assert(report.timeline@.take(m as int) =~= report.timeline@);
    push_str(&mut out, "\n");
    push_str(&mut out, "## Suggested Recovery\n\n");
    if failures == 0 {
        push_str(&mut out, "None.\n");
    } else {
        let ghost head = out@;
        let mut i: usize = 0;
        assert(report.assertions@.take(0) =~= Seq::<AssertionResult>::empty());
        assert(out@ =~= head + recovery_lines(report.assertions@.take(0)));
        while i < n
            invariant
                i <= n == report.assertions.len(),
                out@ == head + recovery_lines(report.assertions@.take(i as int)),
            decreases n - i,
        {
            assert(report.assertions@.take(i + 1).drop_last() =~= report.assertions@.take(i as int));
            let a = &report.assertions[i];
            if !a.passed {
                push_str(&mut out, "- ");
                match &a.impact_message {
                    Some(m) => push_str(&mut out, m.as_str()),
                    None => push_str(&mut out, a.message.as_str()),
                }
                push_str(&mut out, "\n");
            }
            assert(out@ =~= head + recovery_lines(report.assertions@.take(i + 1)));
            i = i + 1;
        }
        assert(report.assertions@.take(n as int) =~= report.assertions@);
    }
    out
}

// ---------------------------------------------------------------------------
// GitHub step summary
// ---------------------------------------------------------------------------

/// At most this many failed assertions are detailed in a step summary.
pub const GITHUB_SUMMARY_MAX_FAILED_ASSERTIONS: usize = 20;

/// Room for summary text: 900 KiB less the truncation notice.
pub const GITHUB_SUMMARY_CONTENT_LIMIT: usize = 921521;

/// The UTF-8 size of a character.
pub open spec fn char_size(c: char) -> nat {
    if (c as u32) < 0x80 {
        1
    } else if (c as u32) < 0x800 {
        2
    } else if (c as u32) < 0x10000 {
        3
    } else {
        4
    }
}

/// The UTF-8 size of text.
pub open spec fn utf8_size(s: Seq<char>) -> nat
    decreases s.len(),
{
    if s.len() == 0 {
        0
    } else {
        utf8_size(s.drop_last()) + char_size(s.last())
    }
}

/// How many leading characters of `s` fit in `room` bytes.
pub open spec fn fit_count(s: Seq<char>, room: int) -> nat
    decreases s.len(),
{
    if s.len() == 0 || char_size(s[0]) > room {
        0
    } else {
        1 + fit_count(s.drop_first(), room - char_size(s[0]))
    }
}

/// The UTF-8 size of a character.
pub fn char_utf8_len(c: char) -> (n: usize)
    ensures
        n == char_size(c),
{
    let u = c as u32;
    if u < 0x80 {
        1
    } else if u < 0x800 {
        2
    } else if u < 0x10000 {
        3
    } else {
        4
    }
}

pub struct WriterView {
    pub output: Seq<char>,
    pub truncated: bool,
}

pub open spec fn empty_writer() -> WriterView {
    WriterView { output: Seq::empty(), truncated: false }
}

/// The writer after `value` is pushed: it is appended while it fits; what
/// does not fit is cut at a character boundary and the writer stops.
pub open spec fn after_push(w: WriterView, value: Seq<char>) -> WriterView {
    if w.truncated {
        w
    } else {
        let k = fit_count(value, GITHUB_SUMMARY_CONTENT_LIMIT - utf8_size(w.output));
        WriterView { output: w.output + value.take(k as int), truncated: k < value.len() }
    }
}

/// How a character of untrusted text is written into summary Markdown.
pub open spec fn summary_escape(c: char, escape_pipe: bool) -> Seq<char> {
    if c == '|' && escape_pipe {
        "\\|"@
    } else if c == '\n' || c == '\r' {
        " "@
    } else if c == '&' {
        "&amp;"@
    } else if c == '<' {
        "&lt;"@
    } else if c == '>' {
        "&gt;"@
    } else if c == '`' {
        "&#96;"@
    } else if c == '[' {
        "&#91;"@
    } else if c == ']' {
        "&#93;"@
    } else if c == '(' {
        "&#40;"@
    } else if c == ')' {
        "&#41;"@
    } else if c == '!' {
        "&#33;"@
    } else if c == '*' {
        "&#42;"@
    } else if c == '#' {
        "&#35;"@
    } else if c == '\\' {
        "&#92;"@
    } else if c == ':' {
        "&#58;"@
    } else if c == '.' {
        "&#46;"@
    } else if c == '@' {
        "&#64;"@
    } else {
        seq![c]
    }
}

/// The writer after untrusted text is pushed character by character.
pub open spec fn after_escaped(w: WriterView, s: Seq<char>, escape_pipe: bool) -> WriterView
    decreases s.len(),
{
    if s.len() == 0 {
        w
    } else {
        after_push(after_escaped(w, s.drop_last(), escape_pipe), summary_escape(s.last(), escape_pipe))
    }
}

/// The text of a finished writer: a truncated one ends with the notice.
pub open spec fn finished(w: WriterView) -> Seq<char> {
    if w.truncated {
        w.output + "\n\n_… summary truncated; full evidence is available in the report artifacts._\n"@
    } else {
        w.output
    }
}

proof fn lemma_truncated_stays(w: WriterView, s: Seq<char>, escape_pipe: bool)
    requires
        w.truncated,
    ensures
        after_escaped(w, s, escape_pipe) == w,
    decreases s.len(),
{
    if s.len() > 0 {
        lemma_truncated_stays(w, s.drop_last(), escape_pipe);
    }
}

proof fn lemma_escaped_after_truncation(w: WriterView, s: Seq<char>, i: int, escape_pipe: bool)
    requires
        0 <= i <= s.len(),
        after_escaped(w, s.take(i), escape_pipe).truncated,
    ensures
        after_escaped(w, s, escape_pipe) == after_escaped(w, s.take(i), escape_pipe),
    decreases s.len(),
{
    if s.len() > i {
        assert(s.drop_last().take(i) =~= s.take(i));
        lemma_escaped_after_truncation(w, s.drop_last(), i, escape_pipe);
    } else {
        assert(s.take(i) =~= s);
    }
}

/// Markdown for a GitHub step summary, bounded so that the summary stays
/// within GitHub's size limit and ends with a notice when cut short.
pub struct GithubSummaryWriter {
    output: String,
    size: usize,
    truncated: bool,
}

impl View for GithubSummaryWriter {
    type V = WriterView;

    closed spec fn view(&self) -> WriterView {
        WriterView { output: self.output@, truncated: self.truncated }
    }
}

impl GithubSummaryWriter {
    /// The writer's size bookkeeping is consistent.
    pub closed spec fn wf(&self) -> bool {
        self.size == utf8_size(self.output@) && self.size <= GITHUB_SUMMARY_CONTENT_LIMIT
    }

    pub fn new() -> (w: Self)
        ensures
            w.wf(),
            w@ == empty_writer(),
    {
        GithubSummaryWriter { output: String::new(), size: 0, truncated: false }
    }

    /// Appends text while it fits.
    pub fn push(&mut self, value: &str)
        requires
            old(self).wf(),
        ensures
            final(self).wf(),
            final(self)@ == after_push(old(self)@, value@),
    {
        if self.truncated {
            return;
        }
        let remaining = GITHUB_SUMMARY_CONTENT_LIMIT - self.size;
        let chars = crate::text::chars_of(value);
        let mut acc: usize = 0;
        let mut k: usize = 0;
        assert(chars@.skip(0) =~= chars@);
        assert(chars@.take(0) =~= Seq::<char>::empty());
        while k < chars.len() && acc + char_utf8_len(chars[k]) <= remaining
            invariant
                k <= chars.len(),
                acc <= remaining <= GITHUB_SUMMARY_CONTENT_LIMIT,
                acc == utf8_size(chars@.take(k as int)),
                fit_count(chars@, remaining as int) == k + fit_count(
                    chars@.skip(k as int),
                    remaining - acc,
                ),
            decreases chars.len() - k,
        {
            let c = chars[k];
            assert(chars@.take(k + 1).drop_last() =~= chars@.take(k as int));
            assert(chars@.skip(k as int).drop_first() =~= chars@.skip(k + 1));
            assert(chars@.skip(k as int)[0] == c);
            acc = acc + char_utf8_len(c);
            k = k + 1;
        }
        assert(fit_count(chars@.skip(k as int), remaining - acc) == 0) by {
            if k < chars.len() {
                assert(chars@.skip(k as int)[0] == chars@[k as int]);
            }
        }
        let ghost before = self.output@;
        let mut i: usize = 0;
        while i < k
            invariant
                i <= k <= chars.len(),
                self.output@ == before + chars@.take(i as int),
                self.size == utf8_size(self.output@),
                utf8_size(before) + utf8_size(chars@.take(i as int)) == self.size,
                acc == utf8_size(chars@.take(k as int)),
                utf8_size(before) + acc <= GITHUB_SUMMARY_CONTENT_LIMIT,
                !self.truncated,
            decreases k - i,
        {
            let c = chars[i];
            proof {
                lemma_utf8_size_prefix_mono(chars@, i + 1, k as int);
            }
            push_char(&mut self.output, c);
            assert(chars@.take(i + 1).drop_last() =~= chars@.take(i as int));
            assert(self.output@.drop_last() =~= before + chars@.take(i as int));
            self.size = self.size + char_utf8_len(c);
            i = i + 1;
        }
        if k < chars.len() {
            self.truncated = true;
        }
    }

    /// Appends untrusted text with Markdown-significant characters escaped
    /// (and `|` too when `escape_pipe`), one character at a time.
    pub fn push_escaped(&mut self, value: &str, escape_pipe: bool)
        requires
            old(self).wf(),
        ensures
            final(self).wf(),
            final(self)@ == after_escaped(old(self)@, value@, escape_pipe),
    {
        let chars = crate::text::chars_of(value);
        let ghost start = self@;
        let mut i: usize = 0;
        assert(chars@.take(0) =~= Seq::<char>::empty());
        while i < chars.len()
            invariant
                i <= chars.len(),
                chars@ == value@,
                self.wf(),
                self@ == after_escaped(start, chars@.take(i as int), escape_pipe),
                start == old(self)@,
            decreases chars.len() - i,
        {
            let c = chars[i];
            assert(chars@.take(i + 1).drop_last() =~= chars@.take(i as int));
            if c == '|' && escape_pipe {
                self.push("\\|");
            } else if c == '\n' || c == '\r' {
                self.push(" ");
            } else if c == '&' {
                self.push("&amp;");
            } else if c == '<' {
                self.push("&lt;");
            } else if c == '>' {
                self.push("&gt;");
            } else if c == '`' {
                self.push("&#96;");
            } else if c == '[' {
                self.push("&#91;");
            } else if c == ']' {
                self.push("&#93;");
            } else if c == '(' {
                self.push("&#40;");
            } else if c == ')' {
                self.push("&#41;");
            } else if c == '!' {
                self.push("&#33;");
            } else if c == '*' {
                self.push("&#42;");
            } else if c == '#' {
                self.push("&#35;");
            } else if c == '\\' {
                self.push("&#92;");
            } else if c == ':' {
                self.push("&#58;");
            } else if c == '.' {
                self.push("&#46;");
            } else if c == '@' {
                self.push("&#64;");
            } else {
                let mut one = String::new();
                push_char(&mut one, c);
                assert(one@ =~= seq![c]);
                self.push(one.as_str());
            }
            assert(self@ == after_escaped(start, chars@.take(i + 1), escape_pipe));
            i = i + 1;
            if self.truncated {
                proof {
                    assert(self@.truncated);
                    assert(chars@.take(i as int) == value@.take(i as int));
                    lemma_escaped_after_truncation(start, value@, i as int, escape_pipe);
                    assert(self@ == after_escaped(start, value@, escape_pipe));
                }
                return;
            }
        }
        assert(chars@.take(chars.len() as int) =~= chars@);
    }

    /// The summary text; a truncated summary ends with a notice.
    pub fn finish(self) -> (s: String)
        ensures
            s@ == finished(self@),
    {
        let mut output = self.output;
        if self.truncated {
            push_str(
                &mut output,
                "\n\n_… summary truncated; full evidence is available in the report artifacts._\n",
            );
        }
        output
    }
}

proof fn lemma_utf8_size_prefix_mono(s: Seq<char>, i: int, k: int)
    requires
        0 <= i <= k <= s.len(),
    ensures
        utf8_size(s.take(i)) <= utf8_size(s.take(k)),
    decreases k - i,
{
    if i < k {
        lemma_utf8_size_prefix_mono(s, i, k - 1);
        assert(s.take(k).drop_last() =~= s.take(k - 1));
    }
}

/// The aggregate of one `roomci run --report-dir` invocation.
pub struct RunSummary {
    pub schema_version: String,
    pub run_id: String,
    pub total: usize,
    pub passed: usize,
    pub failed: usize,
    pub scenarios: Vec<ScenarioSummaryEntry>,
}

/// One scenario's entry of a run summary.
pub struct ScenarioSummaryEntry {
    pub sequence: usize,
    pub path: String,
    pub scenario_name: String,
    pub result: RunResult,
    pub assertions_total: usize,
    pub assertions_failed: usize,
    pub report_dir: String,
    pub dry_run: bool,
}

/// A failed assertion detailed in a step summary.
pub struct GithubFailureDetail {
    pub scenario_name: String,
    pub assertion_name: String,
    pub message: String,
    pub impact_message: Option<String>,
}

/// A piece of summary text: trusted, or untrusted and escaped.
pub enum Piece {
    Plain(Seq<char>),
    Escaped(Seq<char>, bool),
}

pub open spec fn apply_piece(w: WriterView, p: Piece) -> WriterView {
    match p {
        Piece::Plain(t) => after_push(w, t),
        Piece::Escaped(t, pipe) => after_escaped(w, t, pipe),
    }
}

pub open spec fn apply_pieces(w: WriterView, ps: Seq<Piece>) -> WriterView
    decreases ps.len(),
{
    if ps.len() == 0 {
        w
    } else {
        apply_piece(apply_pieces(w, ps.drop_last()), ps.last())
    }
}

proof fn lemma_apply_push(w: WriterView, ps: Seq<Piece>, p: Piece)
    ensures
        apply_pieces(w, ps.push(p)) == apply_piece(apply_pieces(w, ps), p),
{
    assert(ps.push(p).drop_last() =~= ps);
}

pub open spec fn all_dry_run(entries: Seq<ScenarioSummaryEntry>) -> bool {
    entries.len() > 0 && forall|i: int| 0 <= i < entries.len() ==> #[trigger] entries[i].dry_run
}

pub open spec fn summary_header(summary: RunSummary) -> Seq<char> {
    if all_dry_run(summary.scenarios@) {
        "## roomci: "@ + decimal(summary.total as nat) + " validated (dry run; not executed)\n\n"@
    } else {
        "## roomci: "@ + decimal(summary.passed as nat) + " passed, "@ + decimal(
            summary.failed as nat,
        ) + " failed (of "@ + decimal(summary.total as nat) + ")\n\n"@
    }
}

pub open spec fn saturating_sub(a: nat, b: nat) -> nat {
    if a >= b {
        (a - b) as nat
    } else {
        0
    }
}

pub open spec fn row_pieces(e: ScenarioSummaryEntry) -> Seq<Piece> {
    seq![
        Piece::Plain("| "@),
        Piece::Plain(decimal(e.sequence as nat)),
        Piece::Plain(" | "@),
        Piece::Escaped(e.scenario_name@, true),
        Piece::Plain(" | "@),
        Piece::Plain(
            if e.dry_run {
                "🟦 validated"@
            } else if e.result == RunResult::Passed {
                "✅ passed"@
            } else {
                "❌ failed"@
            },
        ),
        Piece::Plain(" | "@),
        Piece::Plain(
            if e.dry_run {
                "not executed"@
            } else {
                decimal(saturating_sub(e.assertions_total as nat, e.assertions_failed as nat)) + "/"@
                    + decimal(e.assertions_total as nat)
            },
        ),
        Piece::Plain(" |\n"@),
    ]
}

pub open spec fn rows_pieces(entries: Seq<ScenarioSummaryEntry>) -> Seq<Piece>
    decreases entries.len(),
{
    if entries.len() == 0 {
        Seq::empty()
    } else {
        rows_pieces(entries.drop_last()) + row_pieces(entries.last())
    }
}

pub open spec fn failure_pieces(f: GithubFailureDetail) -> Seq<Piece> {
    seq![
        Piece::Plain("- `"@),
        Piece::Escaped(f.scenario_name@, false),
        Piece::Plain("` / `"@),
        Piece::Escaped(f.assertion_name@, false),
        Piece::Plain("`: "@),
        Piece::Escaped(f.message@, false),
        Piece::Plain("\n"@),
    ] + match f.impact_message {
        Some(m) => seq![
            Piece::Plain("  - Guest impact: "@),
            Piece::Escaped(m@, false),
            Piece::Plain("\n"@),
        ],
        None => Seq::empty(),
    }
}

pub open spec fn failures_pieces(fs: Seq<GithubFailureDetail>) -> Seq<Piece>
    decreases fs.len(),
{
    if fs.len() == 0 {
        Seq::empty()
    } else {
        failures_pieces(fs.drop_last()) + failure_pieces(fs.last())
    }
}

/// Every piece of a step summary, in order: the headline, one table row per
/// scenario and, when assertions failed, the first twenty failures and a
/// count of the rest.
pub open spec fn summary_pieces(
    summary: RunSummary,
    failures: Seq<GithubFailureDetail>,
    total_failed: nat,
) -> Seq<Piece> {
    let head = seq![
        Piece::Plain(summary_header(summary)),
        Piece::Plain("| # | Scenario | Result | Assertions |\n"@),
        Piece::Plain("|---|----------|--------|------------|\n"@),
    ] + rows_pieces(summary.scenarios@);
    if failures.len() == 0 {
        head
    } else {
        let shown = if failures.len() > 20 {
            failures.take(20)
        } else {
            failures
        };
        let remaining = saturating_sub(total_failed, 20);
        head + seq![Piece::Plain("\n### Failed assertions\n\n"@)] + failures_pieces(shown) + if remaining
            > 0 {
            seq![Piece::Plain("\n…and "@ + decimal(remaining) + " more\n"@)]
        } else {
            Seq::empty()
        }
    }
}

/// The text of a GitHub step summary.
pub open spec fn github_summary_text(
    summary: RunSummary,
    failures: Seq<GithubFailureDetail>,
    total_failed: nat,
) -> Seq<char> {
    finished(apply_pieces(empty_writer(), summary_pieces(summary, failures, total_failed)))
}

fn entries_all_dry_run(entries: &Vec<ScenarioSummaryEntry>) -> (r: bool)
    ensures
        r == all_dry_run(entries@),
{
    if entries.len() == 0 {
        return false;
    }
    let mut i: usize = 0;
    while i < entries.len()
        invariant
            i <= entries.len(),
            forall|j: int| 0 <= j < i ==> #[trigger] entries@[j].dry_run,
        decreases entries.len() - i,
    {
        if !entries[i].dry_run {
            return false;
        }
        i = i + 1;
    }
    true
}

proof fn lemma_apply_concat(w: WriterView, a: Seq<Piece>, b: Seq<Piece>)
    ensures
        apply_pieces(w, a + b) == apply_pieces(apply_pieces(w, a), b),
    decreases b.len(),
{
    if b.len() == 0 {
        assert(a + b =~= a);
    } else {
        lemma_apply_concat(w, a, b.drop_last());
        assert((a + b).drop_last() =~= a + b.drop_last());
    }
}

fn write_plain(w: &mut GithubSummaryWriter, text: &str, Ghost(ps): Ghost<Seq<Piece>>, Ghost(start): Ghost<WriterView>)
    requires
        old(w).wf(),
        old(w)@ == apply_pieces(start, ps),
    ensures
        final(w).wf(),
        final(w)@ == apply_pieces(start, ps.push(Piece::Plain(text@))),
{
    w.push(text);
    proof {
        lemma_apply_push(start, ps, Piece::Plain(text@));
    }
}

fn write_escaped(
    w: &mut GithubSummaryWriter,
    text: &str,
    escape_pipe: bool,
    Ghost(ps): Ghost<Seq<Piece>>,
    Ghost(start): Ghost<WriterView>,
)
    requires
        old(w).wf(),
        old(w)@ == apply_pieces(start, ps),
    ensures
        final(w).wf(),
        final(w)@ == apply_pieces(start, ps.push(Piece::Escaped(text@, escape_pipe))),
{
    w.push_escaped(text, escape_pipe);
    proof {
        lemma_apply_push(start, ps, Piece::Escaped(text@, escape_pipe));
    }
}

fn write_row(w: &mut GithubSummaryWriter, e: &ScenarioSummaryEntry)
    requires
        old(w).wf(),
    ensures
        final(w).wf(),
        final(w)@ == apply_pieces(old(w)@, row_pieces(*e)),
{
    let ghost start = w@;
    let seqtext = usize_to_string(e.sequence);
    let result_text = if e.dry_run {
        "🟦 validated"
    } else if e.result == RunResult::Passed {
        "✅ passed"
    } else {
        "❌ failed"
    };
    let count_text = if e.dry_run {
        to_owned("not executed")
    } else {
        let passed = if e.assertions_total >= e.assertions_failed {
            e.assertions_total - e.assertions_failed
        } else {
            0
        };
        let mut c = usize_to_string(passed);
        push_str(&mut c, "/");
        let t = usize_to_string(e.assertions_total);
        push_str(&mut c, t.as_str());
        c
    };
    let ghost p0: Seq<Piece> = Seq::empty();
    write_plain(w, "| ", Ghost(p0), Ghost(start));
    let ghost p1 = p0.push(Piece::Plain("| "@));
    write_plain(w, seqtext.as_str(), Ghost(p1), Ghost(start));
    let ghost p2 = p1.push(Piece::Plain(seqtext@));
    write_plain(w, " | ", Ghost(p2), Ghost(start));
    let ghost p3 = p2.push(Piece::Plain(" | "@));
    write_escaped(w, e.scenario_name.as_str(), true, Ghost(p3), Ghost(start));
    let ghost p4 = p3.push(Piece::Escaped(e.scenario_name@, true));
    write_plain(w, " | ", Ghost(p4), Ghost(start));
    let ghost p5 = p4.push(Piece::Plain(" | "@));
    write_plain(w, result_text, Ghost(p5), Ghost(start));
    let ghost p6 = p5.push(Piece::Plain(result_text@));
    write_plain(w, " | ", Ghost(p6), Ghost(start));
    let ghost p7 = p6.push(Piece::Plain(" | "@));
    write_plain(w, count_text.as_str(), Ghost(p7), Ghost(start));
    let ghost p8 = p7.push(Piece::Plain(count_text@));
    write_plain(w, " |\n", Ghost(p8), Ghost(start));
    let ghost p9 = p8.push(Piece::Plain(" |\n"@));
    assert(p9 =~= row_pieces(*e));
}

fn write_failure(w: &mut GithubSummaryWriter, f: &GithubFailureDetail)
    requires
        old(w).wf(),
    ensures
        final(w).wf(),
        final(w)@ == apply_pieces(old(w)@, failure_pieces(*f)),
{
    let ghost start = w@;
    let ghost p0: Seq<Piece> = Seq::empty();
    write_plain(w, "- `", Ghost(p0), Ghost(start));
    let ghost p1 = p0.push(Piece::Plain("- `"@));
    write_escaped(w, f.scenario_name.as_str(), false, Ghost(p1), Ghost(start));
    let ghost p2 = p1.push(Piece::Escaped(f.scenario_name@, false));
    write_plain(w, "` / `", Ghost(p2), Ghost(start));
    let ghost p3 = p2.push(Piece::Plain("` / `"@));
    write_escaped(w, f.assertion_name.as_str(), false, Ghost(p3), Ghost(start));
    let ghost p4 = p3.push(Piece::Escaped(f.assertion_name@, false));
    write_plain(w, "`: ", Ghost(p4), Ghost(start));
    let ghost p5 = p4.push(Piece::Plain("`: "@));
    write_escaped(w, f.message.as_str(), false, Ghost(p5), Ghost(start));
    let ghost p6 = p5.push(Piece::Escaped(f.message@, false));
    write_plain(w, "\n", Ghost(p6), Ghost(start));
    let ghost p7 = p6.push(Piece::Plain("\n"@));
    match &f.impact_message {
        Some(impact) => {
            write_plain(w, "  - Guest impact: ", Ghost(p7), Ghost(start));
            let ghost p8 = p7.push(Piece::Plain("  - Guest impact: "@));
            write_escaped(w, impact.as_str(), false, Ghost(p8), Ghost(start));
            let ghost p9 = p8.push(Piece::Escaped(impact@, false));
            write_plain(w, "\n", Ghost(p9), Ghost(start));
            let ghost p10 = p9.push(Piece::Plain("\n"@));
            assert(p10 =~= failure_pieces(*f));
        },
        None => {
            assert(p7 =~= failure_pieces(*f));
        },
    }
}

fn summary_header_text(summary: &RunSummary) -> (h: String)
    ensures
        h@ == summary_header(*summary),
{
    if entries_all_dry_run(&summary.scenarios) {
        let mut h = to_owned("## roomci: ");
        let t = usize_to_string(summary.total);
        push_str(&mut h, t.as_str());
        push_str(&mut h, " validated (dry run; not executed)\n\n");
        h
    } else {
        let mut h = to_owned("## roomci: ");
        let p = usize_to_string(summary.passed);
        push_str(&mut h, p.as_str());
        push_str(&mut h, " passed, ");
        let f = usize_to_string(summary.failed);
        push_str(&mut h, f.as_str());
        push_str(&mut h, " failed (of ");
        let t = usize_to_string(summary.total);
        push_str(&mut h, t.as_str());
        push_str(&mut h, ")\n\n");
        h
    }
}

/// Renders the compact, append-safe Markdown of a GitHub Actions step
/// summary: a table of scenarios and at most twenty failed assertions,
/// bounded to stay within GitHub's limit.
pub fn to_github_step_summary(
    summary: &RunSummary,
    failed_assertions: &Vec<GithubFailureDetail>,
    total_failed_assertions: usize,
) -> (s: String)
    ensures
        s@ == github_summary_text(*summary, failed_assertions@, total_failed_assertions as nat),
{
    let mut w = GithubSummaryWriter::new();
    let ghost e = empty_writer();
    let header = summary_header_text(summary);
    let ghost p0: Seq<Piece> = Seq::empty();
    write_plain(&mut w, header.as_str(), Ghost(p0), Ghost(e));
    let ghost p1 = p0.push(Piece::Plain(header@));
    write_plain(&mut w, "| # | Scenario | Result | Assertions |\n", Ghost(p1), Ghost(e));
    let ghost p2 = p1.push(Piece::Plain("| # | Scenario | Result | Assertions |\n"@));
    write_plain(&mut w, "|---|----------|--------|------------|\n", Ghost(p2), Ghost(e));
    let ghost head = p2.push(Piece::Plain("|---|----------|--------|------------|\n"@));
    let n = summary.scenarios.len();
    let mut i: usize = 0;
    assert(summary.scenarios@.take(0) =~= Seq::<ScenarioSummaryEntry>::empty());
    assert(head =~= head + rows_pieces(summary.scenarios@.take(0)));
    while i < n
        invariant
            i <= n == summary.scenarios.len(),
            w.wf(),
            w@ == apply_pieces(e, head + rows_pieces(summary.scenarios@.take(i as int))),
        decreases n - i,
    {
        let ghost done = head + rows_pieces(summary.scenarios@.take(i as int));
        write_row(&mut w, &summary.scenarios[i]);
        proof {
            assert(summary.scenarios@.take(i + 1).drop_last() =~= summary.scenarios@.take(i as int));
            lemma_apply_concat(e, done, row_pieces(summary.scenarios@[i as int]));
            assert(done + row_pieces(summary.scenarios@[i as int]) =~= head + rows_pieces(
                summary.scenarios@.take(i + 1),
            ));
        }
        i = i + 1;
    }
    assert(summary.scenarios@.take(n as int) =~= summary.scenarios@);
    let ghost all_rows = head + rows_pieces(summary.scenarios@);
    if failed_assertions.len() == 0 {
        assert(all_rows == summary_pieces(*summary, failed_assertions@, total_failed_assertions as nat));
        return w.finish();
    }
    write_plain(&mut w, "\n### Failed assertions\n\n", Ghost(all_rows), Ghost(e));
    let ghost fhead = all_rows.push(Piece::Plain("\n### Failed assertions\n\n"@));
    let shown = if failed_assertions.len() > GITHUB_SUMMARY_MAX_FAILED_ASSERTIONS {
        GITHUB_SUMMARY_MAX_FAILED_ASSERTIONS
    } else {
        failed_assertions.len()
    };
    assert(failed_assertions@.take(0) =~= Seq::<GithubFailureDetail>::empty());
    assert(fhead =~= fhead + failures_pieces(failed_assertions@.take(0)));
    let mut j: usize = 0;
    while j < shown
        invariant
            j <= shown <= failed_assertions.len(),
            w.wf(),
            w@ == apply_pieces(e, fhead + failures_pieces(failed_assertions@.take(j as int))),
        decreases shown - j,
    {
        let ghost done = fhead + failures_pieces(failed_assertions@.take(j as int));
        write_failure(&mut w, &failed_assertions[j]);
        proof {
            assert(failed_assertions@.take(j + 1).drop_last() =~= failed_assertions@.take(j as int));
            lemma_apply_concat(e, done, failure_pieces(failed_assertions@[j as int]));
            assert(done + failure_pieces(failed_assertions@[j as int]) =~= fhead + failures_pieces(
                failed_assertions@.take(j + 1),
            ));
        }
        j = j + 1;
    }
    let ghost shown_seq = if failed_assertions.len() > 20 {
        failed_assertions@.take(20)
    } else {
        failed_assertions@
    };
    assert(failed_assertions@.take(shown as int) =~= shown_seq);
    let ghost body = fhead + failures_pieces(shown_seq);
    let remaining = if total_failed_assertions >= GITHUB_SUMMARY_MAX_FAILED_ASSERTIONS {
        total_failed_assertions - GITHUB_SUMMARY_MAX_FAILED_ASSERTIONS
    } else {
        0
    };
    if remaining > 0 {
        let mut tail = to_owned("\n…and ");
        let r = usize_to_string(remaining);
        push_str(&mut tail, r.as_str());
        push_str(&mut tail, " more\n");
        write_plain(&mut w, tail.as_str(), Ghost(body), Ghost(e));
        assert(body.push(Piece::Plain(tail@)) =~= summary_pieces(
            *summary,
            failed_assertions@,
            total_failed_assertions as nat,
        ));
    } else {
        assert(body =~= summary_pieces(*summary, failed_assertions@, total_failed_assertions as nat));
    }
    w.finish()
}

// ---------------------------------------------------------------------------
// Timeline and observability exports
// ---------------------------------------------------------------------------

/// One event of the stable timeline export.
#[derive(Debug)]
pub struct TimelineExportEvent {
    pub schema_version: String,
    pub run_id: String,
    pub scenario_name: String,
    pub trace_id: String,
    pub span_id: String,
    pub parent_span_id: Option<String>,
    pub sequence: usize,
    pub at: String,
    pub event_type: String,
    pub target: Option<String>,
    pub message: String,
}

/// The export record of the event at `sequence` of a run: it carries the
/// run's trace id, its own span id and the span id of the event before it.
pub open spec fn export_event_matches(
    x: TimelineExportEvent,
    report: RunReport,
    event: TimelineEvent,
    sequence: int,
) -> bool {
    &&& x.schema_version@ == "roomci.timeline.v1"@
    &&& x.run_id@ == report.run_id@
    &&& x.scenario_name@ == report.scenario_name@
    &&& x.trace_id@ == "roomci-trace-"@ + report.run_id@
    &&& x.span_id@ == "roomci-span-"@ + report.run_id@ + "-"@ + padded6(sequence as nat)
    &&& x.parent_span_id matches Some(p) ==> sequence > 0 && p@ == "roomci-span-"@
        + report.run_id@ + "-"@ + padded6((sequence - 1) as nat)
    &&& x.parent_span_id is None ==> sequence == 0
    &&& x.sequence == sequence
    &&& x.at@ == event.at@
    &&& x.event_type@ == event.event_type@
    &&& opt_chars(x.target) == opt_chars(event.target)
    &&& x.message@ == event.message@
}

pub fn clone_opt(o: &Option<String>) -> (r: Option<String>)
    ensures
        opt_chars(r) == opt_chars(*o),
{
    match o {
        Some(s) => Some(s.clone()),
        None => None,
    }
}

/// The export record of one timeline event.
pub fn timeline_export_event(report: &RunReport, event: &TimelineEvent, sequence: usize) -> (x:
    TimelineExportEvent)
    ensures
        export_event_matches(x, *report, *event, sequence as int),
{
    TimelineExportEvent {
        schema_version: to_owned("roomci.timeline.v1"),
        run_id: report.run_id.clone(),
        scenario_name: report.scenario_name.clone(),
        trace_id: stable_trace_id(report.run_id.as_str()),
        span_id: stable_span_id(report.run_id.as_str(), sequence),
        parent_span_id: if sequence == 0 {
            None
        } else {
            Some(stable_span_id(report.run_id.as_str(), sequence - 1))
        },
        sequence,
        at: event.at.clone(),
        event_type: event.event_type.clone(),
        target: clone_opt(&event.target),
        message: event.message.clone(),
    }
}

/// A report's timeline as stable export records, in timeline order.
pub fn timeline_export_events(report: &RunReport) -> (r: Vec<TimelineExportEvent>)
    ensures
        r@.len() == report.timeline@.len(),
        forall|i: int|
            0 <= i < r@.len() ==> export_event_matches(
                #[trigger] r@[i],
                *report,
                report.timeline@[i],
                i,
            ),
{
    let mut out: Vec<TimelineExportEvent> = Vec::new();
    let mut i: usize = 0;
    while i < report.timeline.len()
        invariant
            i <= report.timeline.len(),
            out@.len() == i,
            forall|j: int|
                0 <= j < i ==> export_event_matches(#[trigger] out@[j], *report, report.timeline@[j], j),
        decreases report.timeline.len() - i,
    {
        let x = timeline_export_event(report, &report.timeline[i], i);
        out.push(x);
        i = i + 1;
    }
    out
}

/// Events per type.
pub open spec fn type_counts(events: Seq<TimelineEvent>) -> Map<Seq<char>, nat>
    decreases events.len(),
{
    if events.len() == 0 {
        Map::empty()
    } else {
        let prior = type_counts(events.drop_last());
        let t = events.last().event_type@;
        prior.insert(t, if prior.contains_key(t) { prior[t] + 1 } else { 1 })
    }
}

pub open spec fn string_texts(v: Seq<String>) -> Seq<Seq<char>> {
    v.map_values(|s: String| s@)
}

/// Whether some assertion reports `level` as its impact level.
pub open spec fn has_impact_level(assertions: Seq<AssertionResult>, level: Seq<char>) -> bool {
    exists|i: int| 0 <= i < assertions.len() && opt_chars(assertions[i].impact_level) == Some(level)
}

/// A deterministic observability summary of a run.
#[derive(Debug)]
pub struct ObservabilityExport {
    pub schema_version: String,
    pub run_id: String,
    pub scenario_name: String,
    pub result: RunResult,
    pub timeline_event_count: usize,
    pub assertion_count: usize,
    pub failed_assertion_count: usize,
    pub events_by_type: StrMap<usize>,
    pub assertions_by_status: StrMap<usize>,
    pub impact_levels: Vec<String>,
}

/// Builds the observability summary of a run report: counts of events per
/// type and of assertions per status, and the distinct impact levels in
/// order.
pub fn observability_export(report: &RunReport) -> (x: ObservabilityExport)
    ensures
        x.schema_version@ == "roomci.observability.v1"@,
        x.run_id@ == report.run_id@,
        x.scenario_name@ == report.scenario_name@,
        x.result == report.result,
        x.timeline_event_count == report.timeline@.len(),
        x.assertion_count == report.assertions@.len(),
        x.failed_assertion_count == failed_count(report.assertions@),
        x.events_by_type@.dom() == type_counts(report.timeline@).dom(),
        forall|t: Seq<char>| #[trigger] x.events_by_type@.contains_key(t) ==> x.events_by_type@[t]
            == type_counts(report.timeline@)[t],
        x.assertions_by_status@ == Map::<Seq<char>, usize>::empty().insert(
            "passed"@,
            (report.assertions@.len() - failed_count(report.assertions@)) as usize,
        ).insert("failed"@, failed_count(report.assertions@) as usize),
        crate::strmap::sorted_keys(string_texts(x.impact_levels@)),
        forall|level: Seq<char>|
            #[trigger] string_texts(x.impact_levels@).contains(level)
                <==> has_impact_level(report.assertions@, level),
{
    let mut by_type: StrMap<usize> = StrMap::new();
    let mut i: usize = 0;
    assert(report.timeline@.take(0) =~= Seq::<TimelineEvent>::empty());
    while i < report.timeline.len()
        invariant
            i <= report.timeline.len(),
            by_type@.dom() == type_counts(report.timeline@.take(i as int)).dom(),
            forall|t: Seq<char>| #[trigger] by_type@.contains_key(t) ==> by_type@[t] == type_counts(
                report.timeline@.take(i as int),
            )[t] && by_type@[t] <= i,
        decreases report.timeline.len() - i,
    {
        assert(report.timeline@.take(i + 1).drop_last() =~= report.timeline@.take(i as int));
        let t = report.timeline[i].event_type.as_str();
        let count = match by_type.get_copied(t) {
            Some(n) => n + 1,
            None => 1,
        };
        let ghost before = by_type@;
        by_type.insert(to_owned(t), count);
        proof {
            let spec_counts = type_counts(report.timeline@.take(i + 1));
            assert(by_type@.dom() =~= spec_counts.dom());
        }
        i = i + 1;
    }
    assert(report.timeline@.take(report.timeline.len() as int) =~= report.timeline@);
    let failed = count_failed(&report.assertions);
    let mut by_status: StrMap<usize> = StrMap::new();
    by_status.insert(to_owned("passed"), report.assertions.len() - failed);
    by_status.insert(to_owned("failed"), failed);
    let mut levels: StrMap<()> = StrMap::new();
    let mut j: usize = 0;
    while j < report.assertions.len()
        invariant
            j <= report.assertions.len(),
            forall|level: Seq<char>|
                #[trigger] levels@.contains_key(level) <==> exists|q: int|
                    0 <= q < j && opt_chars(report.assertions@[q].impact_level) == Some(level),
        decreases report.assertions.len() - j,
    {
        match &report.assertions[j].impact_level {
            Some(level) => {
                levels.insert(level.clone(), ());
            },
            None => {},
        }
        proof {
            assert forall|level: Seq<char>|
                #[trigger] levels@.contains_key(level) <==> exists|q: int|
                    0 <= q < j + 1 && opt_chars(report.assertions@[q].impact_level) == Some(level) by {
                if opt_chars(report.assertions@[j as int].impact_level) == Some(level) {
                    assert(levels@.contains_key(level));
                }
            }
        }
        j = j + 1;
    }
    let impact_levels = levels.keys();
    proof {
        use_type_invariant(&levels);
        levels.lemma_wf();
        let ks = string_texts(impact_levels@);
        assert forall|level: Seq<char>| #[trigger] ks.contains(level) <==> levels@.contains_key(level) by {
            if ks.contains(level) {
                let q = choose|q: int| 0 <= q < ks.len() && ks[q] == level;
                assert(levels.entry_seq()[q].0 == level);
            }
            if levels@.contains_key(level) {
                let q = choose|q: int| 0 <= q < levels.entry_seq().len() && levels.entry_seq()[q].0 == level;
                assert(ks[q] == level);
            }
        }
    }
    let x = ObservabilityExport {
        schema_version: to_owned("roomci.observability.v1"),
        run_id: report.run_id.clone(),
        scenario_name: report.scenario_name.clone(),
        result: report.result,
        timeline_event_count: report.timeline.len(),
        assertion_count: report.assertions.len(),
        failed_assertion_count: failed,
        events_by_type: by_type,
        assertions_by_status: by_status,
        impact_levels,
    };
    x
}

} // verus!

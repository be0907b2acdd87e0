//! Adapter contract acceptance: pass/fail criteria, report formats and the
//! evidence mappings that tie criteria to scenario assertions and report
//! artifacts. Every check reports the first problem, in document order.

use vstd::prelude::*;

use crate::checks::{
    sanitize_diagnostic_value, sanitized, valid_evidence_id, valid_scenario_name,
    validate_evidence_id, validate_scenario_name,
};
use crate::scenario::ScenarioError;
use crate::text::{
    byte_len, chars_of, concat2, decimal, has_control, is_blank, push_str, seq_has_control,
    seq_is_blank, str_byte_len, str_eq, to_owned, usize_to_string,
};

verus! {

/// An adapter contract's acceptance section.
pub struct AdapterAcceptance {
    pub criteria: Vec<String>,
    pub report_formats: Vec<String>,
    pub mappings: Vec<AdapterAcceptanceMapping>,
}

/// Evidence for one acceptance criterion.
pub struct AdapterAcceptanceMapping {
    pub id: String,
    pub criterion: String,
    pub assertions: Vec<AdapterAssertionReference>,
    pub artifacts: Vec<String>,
}

/// A named assertion of a scenario.
pub struct AdapterAssertionReference {
    pub scenario: String,
    pub assertion: String,
}

pub struct MappingView {
    pub id: Seq<char>,
    pub criterion: Seq<char>,
    pub assertions: Seq<(Seq<char>, Seq<char>)>,
    pub artifacts: Seq<Seq<char>>,
}

pub struct AcceptanceView {
    pub criteria: Seq<Seq<char>>,
    pub report_formats: Seq<Seq<char>>,
    pub mappings: Seq<MappingView>,
}

pub open spec fn texts(v: Seq<String>) -> Seq<Seq<char>> {
    v.map_values(|s: String| s@)
}

pub open spec fn reference_views(v: Seq<AdapterAssertionReference>) -> Seq<(Seq<char>, Seq<char>)> {
    v.map_values(|r: AdapterAssertionReference| (r.scenario@, r.assertion@))
}

impl View for AdapterAcceptanceMapping {
    type V = MappingView;

    open spec fn view(&self) -> MappingView {
        MappingView {
            id: self.id@,
            criterion: self.criterion@,
            assertions: reference_views(self.assertions@),
            artifacts: texts(self.artifacts@),
        }
    }
}

impl View for AdapterAcceptance {
    type V = AcceptanceView;

    open spec fn view(&self) -> AcceptanceView {
        AcceptanceView {
            criteria: texts(self.criteria@),
            report_formats: texts(self.report_formats@),
            mappings: self.mappings@.map_values(|m: AdapterAcceptanceMapping| m@),
        }
    }
}

/// The first problem among the first `n` items, in order.
pub open spec fn first_problem(n: nat, check: spec_fn(int) -> Option<Seq<char>>) -> Option<
    Seq<char>,
>
    decreases n,
{
    if n == 0 {
        None
    } else {
        match first_problem((n - 1) as nat, check) {
            Some(p) => Some(p),
            None => check(n - 1),
        }
    }
}

/// Once a problem is found, later items do not change it.
pub proof fn lemma_first_problem_stable(k: nat, n: nat, check: spec_fn(int) -> Option<Seq<char>>)
    requires
        k <= n,
        first_problem(k, check) is Some,
    ensures
        first_problem(n, check) == first_problem(k, check),
    decreases n,
{
    if n > k {
        lemma_first_problem_stable(k, (n - 1) as nat, check);
    }
}

/// `base[i]`.
pub open spec fn index_path(base: Seq<char>, i: int) -> Seq<char> {
    base + "["@ + decimal(i as nat) + "]"@
}

/// Whether item `i` repeats an earlier item.
pub open spec fn repeats_earlier<T>(items: Seq<T>, i: int) -> bool {
    exists|j: int| 0 <= j < i && items[j] == items[i]
}

pub open spec fn supported_artifact(a: Seq<char>) -> bool {
    a == "json"@ || a == "markdown"@ || a == "junit"@ || a == "timeline-json"@ || a
        == "timeline-ndjson"@ || a == "observability-json"@ || a == "github-summary"@
}

pub open spec fn format_check(formats: Seq<Seq<char>>, i: int) -> Option<Seq<char>> {
    let f = formats[i];
    let path = index_path("acceptance.report_formats"@, i);
    if f.len() == 0 || byte_len(f) > 64 || has_control(f) {
        Some(path + " must be non-empty, control-free, and at most 64 bytes"@)
    } else if repeats_earlier(formats, i) {
        Some(path + " duplicates report format"@)
    } else {
        None
    }
}

pub open spec fn criterion_check(criteria: Seq<Seq<char>>, i: int) -> Option<Seq<char>> {
    let c = criteria[i];
    let path = index_path("acceptance.criteria"@, i);
    if is_blank(c) || byte_len(c) > 4096 || has_control(c) {
        Some(
            path
                + " must be non-empty, control-free, and at most 4096 bytes when mappings are declared"@,
        )
    } else if repeats_earlier(criteria, i) {
        Some(path + " duplicates acceptance criterion"@)
    } else {
        None
    }
}

pub open spec fn reference_check(path: Seq<char>, refs: Seq<(Seq<char>, Seq<char>)>, j: int) -> Option<
    Seq<char>,
> {
    let r = refs[j];
    let rp = index_path(path + ".assertions"@, j);
    if byte_len(r.0) > 128 || !valid_scenario_name(r.0) {
        Some(rp + ".scenario must be at most 128 bytes and match ^[a-z0-9][a-z0-9_]*$"@)
    } else if !valid_evidence_id(r.1) {
        Some(rp + ".assertion"@ + " must be at most 128 bytes and match ^[a-z0-9][a-z0-9_-]*$"@)
    } else if repeats_earlier(refs, j) {
        Some(rp + " duplicates assertion reference "@ + r.0 + ":"@ + r.1)
    } else {
        None
    }
}

pub open spec fn artifact_check(
    path: Seq<char>,
    formats: Seq<Seq<char>>,
    artifacts: Seq<Seq<char>>,
    k: int,
) -> Option<Seq<char>> {
    let a = artifacts[k];
    let ap = index_path(path + ".artifacts"@, k);
    if !supported_artifact(a) {
        Some(ap + " uses unsupported evidence artifact "@ + sanitized(a))
    } else if !formats.contains(a) {
        Some(ap + " references "@ + sanitized(a) + ", which is not declared in acceptance.report_formats"@)
    } else if repeats_earlier(artifacts, k) {
        Some(ap + " duplicates evidence artifact "@ + a)
    } else {
        None
    }
}

pub open spec fn mapping_check(acc: AcceptanceView, i: int) -> Option<Seq<char>> {
    let m = acc.mappings[i];
    let path = index_path("acceptance.mappings"@, i);
    if !valid_evidence_id(m.id) {
        Some(path + ".id"@ + " must be at most 128 bytes and match ^[a-z0-9][a-z0-9_-]*$"@)
    } else if exists|j: int| 0 <= j < i && acc.mappings[j].id == m.id {
        Some(path + ".id duplicates acceptance mapping id "@ + m.id)
    } else if !acc.criteria.contains(m.criterion) {
        Some(path + ".criterion does not match any acceptance.criteria entry"@)
    } else if exists|j: int| 0 <= j < i && acc.mappings[j].criterion == m.criterion {
        Some(
            path
                + ".criterion duplicates a mapped acceptance criterion; combine its evidence references under one stable id"@,
        )
    } else if m.assertions.len() == 0 && m.artifacts.len() == 0 {
        Some(path + " must reference at least one assertion or artifact"@)
    } else if m.assertions.len() > 256 {
        Some(path + ".assertions must contain at most 256 entries"@)
    } else if m.artifacts.len() > 16 {
        Some(path + ".artifacts must contain at most 16 entries"@)
    } else {
        match first_problem(m.assertions.len(), reference_checker(path, m.assertions)) {
            Some(p) => Some(p),
            None => first_problem(
                m.artifacts.len(),
                artifact_checker(path, acc.report_formats, m.artifacts),
            ),
        }
    }
}

pub open spec fn format_checker(formats: Seq<Seq<char>>) -> spec_fn(int) -> Option<Seq<char>> {
    |i: int| format_check(formats, i)
}

pub open spec fn criterion_checker(criteria: Seq<Seq<char>>) -> spec_fn(int) -> Option<Seq<char>> {
    |i: int| criterion_check(criteria, i)
}

pub open spec fn reference_checker(path: Seq<char>, refs: Seq<(Seq<char>, Seq<char>)>) -> spec_fn(
    int,
) -> Option<Seq<char>> {
    |j: int| reference_check(path, refs, j)
}

pub open spec fn artifact_checker(
    path: Seq<char>,
    formats: Seq<Seq<char>>,
    artifacts: Seq<Seq<char>>,
) -> spec_fn(int) -> Option<Seq<char>> {
    |k: int| artifact_check(path, formats, artifacts, k)
}

pub open spec fn mapping_checker(acc: AcceptanceView) -> spec_fn(int) -> Option<Seq<char>> {
    |i: int| mapping_check(acc, i)
}

/// The first problem of an acceptance section, in document order.
pub open spec fn acceptance_problem(acc: AcceptanceView) -> Option<Seq<char>> {
    if acc.criteria.len() > 256 {
        Some("acceptance.criteria must contain at most 256 entries"@)
    } else if acc.mappings.len() > 256 {
        Some("acceptance.mappings must contain at most 256 entries"@)
    } else if acc.report_formats.len() > 16 {
        Some("acceptance.report_formats must contain at most 16 entries"@)
    } else {
        match first_problem(acc.report_formats.len(), format_checker(acc.report_formats)) {
            Some(p) => Some(p),
            None => match (if acc.mappings.len() > 0 {
                first_problem(acc.criteria.len(), criterion_checker(acc.criteria))
            } else {
                None
            }) {
                Some(p) => Some(p),
                None => first_problem(acc.mappings.len(), mapping_checker(acc)),
            },
        }
    }
}

pub fn index_path_text(base: &str, i: usize) -> (s: String)
    ensures
        s@ == index_path(base@, i as int),
{
    let mut s = concat2(base, "[");
    let n = usize_to_string(i);
    push_str(&mut s, n.as_str());
    push_str(&mut s, "]");
    s
}

/// Whether `items[0..upto]` holds `s`.
pub(crate) fn appears_before(items: &Vec<String>, upto: usize, s: &str) -> (r: bool)
    requires
        upto <= items.len(),
    ensures
        r == exists|j: int| 0 <= j < upto && items@[j]@ == s@,
{
    let mut j: usize = 0;
    while j < upto
        invariant
            j <= upto <= items.len(),
            forall|k: int| 0 <= k < j ==> items@[k]@ != s@,
        decreases upto - j,
    {
        if str_eq(items[j].as_str(), s) {
            return true;
        }
        j = j + 1;
    }
    false
}

fn format_problem(formats: &Vec<String>, i: usize) -> (r: Option<String>)
    requires
        i < formats.len(),
    ensures
        match r {
            Some(m) => format_check(texts(formats@), i as int) == Some(m@),
            None => format_check(texts(formats@), i as int) is None,
        },
{
    let f = formats[i].as_str();
    let chars = chars_of(f);
    let ghost fs = texts(formats@);
    if chars.len() == 0 || str_byte_len(f) > 64 || seq_has_control(&chars) {
        let mut m = index_path_text("acceptance.report_formats", i);
        push_str(&mut m, " must be non-empty, control-free, and at most 64 bytes");
        return Some(m);
    }
    if appears_before(formats, i, f) {
        proof {
            let j = choose|j: int| 0 <= j < i && formats@[j]@ == f@;
            assert(fs[j] == fs[i as int]);
        }
        let mut m = index_path_text("acceptance.report_formats", i);
        push_str(&mut m, " duplicates report format");
        return Some(m);
    }
    proof {
        assert forall|j: int| 0 <= j < i implies fs[j] != fs[i as int] by {
            assert(fs[j] == formats@[j]@);
        }
    }
    None
}

fn criterion_problem(criteria: &Vec<String>, i: usize) -> (r: Option<String>)
    requires
        i < criteria.len(),
    ensures
        match r {
            Some(m) => criterion_check(texts(criteria@), i as int) == Some(m@),
            None => criterion_check(texts(criteria@), i as int) is None,
        },
{
    let c = criteria[i].as_str();
    let chars = chars_of(c);
    let ghost cs = texts(criteria@);
    if seq_is_blank(&chars) || str_byte_len(c) > 4096 || seq_has_control(&chars) {
        let mut m = index_path_text("acceptance.criteria", i);
        push_str(
            &mut m,
            " must be non-empty, control-free, and at most 4096 bytes when mappings are declared",
        );
        return Some(m);
    }
    if appears_before(criteria, i, c) {
        proof {
            let j = choose|j: int| 0 <= j < i && criteria@[j]@ == c@;
            assert(cs[j] == cs[i as int]);
        }
        let mut m = index_path_text("acceptance.criteria", i);
        push_str(&mut m, " duplicates acceptance criterion");
        return Some(m);
    }
    proof {
        assert forall|j: int| 0 <= j < i implies cs[j] != cs[i as int] by {
            assert(cs[j] == criteria@[j]@);
        }
    }
    None
}

#[verifier::loop_isolation(false)]
fn reference_problem(path: &str, refs: &Vec<AdapterAssertionReference>, j: usize) -> (r: Option<
    String,
>)
    requires
        j < refs.len(),
    ensures
        match r {
            Some(m) => reference_check(path@, reference_views(refs@), j as int) == Some(m@),
            None => reference_check(path@, reference_views(refs@), j as int) is None,
        },
{
    let ghost rs = reference_views(refs@);
    let base = concat2(path, ".assertions");
    let rp = index_path_text(base.as_str(), j);
    let reference = &refs[j];
    if str_byte_len(reference.scenario.as_str()) > 128 || validate_scenario_name(
        reference.scenario.as_str(),
    ).is_err() {
        let mut m = rp;
        push_str(&mut m, ".scenario must be at most 128 bytes and match ^[a-z0-9][a-z0-9_]*$");
        return Some(m);
    }
    let field = concat2(rp.as_str(), ".assertion");
    match validate_evidence_id(field.as_str(), reference.assertion.as_str()) {
        Err(ScenarioError::InvalidAdapterContract(m)) => {
            return Some(m);
        },
        Err(_) => {
            return None;
        },
        Ok(()) => {},
    }
    let mut k: usize = 0;
    while k < j
        invariant
            k <= j < refs.len(),
            rs == reference_views(refs@),
            forall|q: int| 0 <= q < k ==> rs[q] != rs[j as int],
        decreases j - k,
    {
        if str_eq(refs[k].scenario.as_str(), reference.scenario.as_str()) && str_eq(
            refs[k].assertion.as_str(),
            reference.assertion.as_str(),
        ) {
            assert(rs[k as int] == rs[j as int]);
            let mut m = rp;
            push_str(&mut m, " duplicates assertion reference ");
            push_str(&mut m, reference.scenario.as_str());
            push_str(&mut m, ":");
            push_str(&mut m, reference.assertion.as_str());
            return Some(m);
        }
        k = k + 1;
    }
    None
}

fn artifact_problem(path: &str, formats: &Vec<String>, artifacts: &Vec<String>, k: usize) -> (r:
    Option<String>)
    requires
        k < artifacts.len(),
    ensures
        match r {
            Some(m) => artifact_check(path@, texts(formats@), texts(artifacts@), k as int) == Some(
                m@,
            ),
            None => artifact_check(path@, texts(formats@), texts(artifacts@), k as int) is None,
        },
{
    let ghost fs = texts(formats@);
    let ghost arts = texts(artifacts@);
    let base = concat2(path, ".artifacts");
    let ap = index_path_text(base.as_str(), k);
    let a = artifacts[k].as_str();
    if !(str_eq(a, "json") || str_eq(a, "markdown") || str_eq(a, "junit") || str_eq(
        a,
        "timeline-json",
    ) || str_eq(a, "timeline-ndjson") || str_eq(a, "observability-json") || str_eq(
        a,
        "github-summary",
    )) {
        let mut m = ap;
        push_str(&mut m, " uses unsupported evidence artifact ");
        let s = sanitize_diagnostic_value(a);
        push_str(&mut m, s.as_str());
        return Some(m);
    }
    if !appears_before(formats, formats.len(), a) {
        proof {
            assert forall|j: int| 0 <= j < fs.len() implies fs[j] != a@ by {
                assert(fs[j] == formats@[j]@);
            }
        }
        let mut m = ap;
        push_str(&mut m, " references ");
        let s = sanitize_diagnostic_value(a);
        push_str(&mut m, s.as_str());
        push_str(&mut m, ", which is not declared in acceptance.report_formats");
        return Some(m);
    }
    proof {
        let j = choose|j: int| 0 <= j < formats.len() && formats@[j]@ == a@;
        assert(fs[j] == a@);
    }
    if appears_before(artifacts, k, a) {
        proof {
            let j = choose|j: int| 0 <= j < k && artifacts@[j]@ == a@;
            assert(arts[j] == arts[k as int]);
        }
        let mut m = ap;
        push_str(&mut m, " duplicates evidence artifact ");
        push_str(&mut m, a);
        return Some(m);
    }
    proof {
        assert forall|j: int| 0 <= j < k implies arts[j] != arts[k as int] by {
            assert(arts[j] == artifacts@[j]@);
        }
    }
    None
}

#[verifier::loop_isolation(false)]
fn mapping_problem(acceptance: &AdapterAcceptance, i: usize) -> (r: Option<String>)
    requires
        i < acceptance.mappings.len(),
    ensures
        match r {
            Some(m) => mapping_check(acceptance@, i as int) == Some(m@),
            None => mapping_check(acceptance@, i as int) is None,
        },
{
    let ghost acc = acceptance@;
    let mapping = &acceptance.mappings[i];
    assert(acc.mappings[i as int] == mapping@);
    let path = index_path_text("acceptance.mappings", i);
    let field = concat2(path.as_str(), ".id");
    match validate_evidence_id(field.as_str(), mapping.id.as_str()) {
        Err(ScenarioError::InvalidAdapterContract(m)) => {
            return Some(m);
        },
        Err(_) => {
            return None;
        },
        Ok(()) => {},
    }
    let mut j: usize = 0;
    while j < i
        invariant
            j <= i < acceptance.mappings.len(),
            acc == acceptance@,
            forall|q: int| 0 <= q < j ==> acc.mappings[q].id != mapping.id@,
        decreases i - j,
    {
        assert(acc.mappings[j as int] == acceptance.mappings@[j as int]@);
        if str_eq(acceptance.mappings[j].id.as_str(), mapping.id.as_str()) {
            let mut m = path;
            push_str(&mut m, ".id duplicates acceptance mapping id ");
            push_str(&mut m, mapping.id.as_str());
            return Some(m);
        }
        j = j + 1;
    }
    if !appears_before(&acceptance.criteria, acceptance.criteria.len(), mapping.criterion.as_str()) {
        proof {
            assert forall|q: int| 0 <= q < acc.criteria.len() implies acc.criteria[q]
                != mapping.criterion@ by {
                assert(acc.criteria[q] == acceptance.criteria@[q]@);
            }
        }
        let mut m = path;
        push_str(&mut m, ".criterion does not match any acceptance.criteria entry");
        return Some(m);
    }
    proof {
        let q = choose|q: int|
            0 <= q < acceptance.criteria.len() && acceptance.criteria@[q]@ == mapping.criterion@;
        assert(acc.criteria[q] == mapping.criterion@);
    }
    let mut j: usize = 0;
    while j < i
        invariant
            j <= i < acceptance.mappings.len(),
            acc == acceptance@,
            forall|q: int| 0 <= q < j ==> acc.mappings[q].criterion != mapping.criterion@,
        decreases i - j,
    {
        assert(acc.mappings[j as int] == acceptance.mappings@[j as int]@);
        if str_eq(acceptance.mappings[j].criterion.as_str(), mapping.criterion.as_str()) {
            let mut m = path;
            push_str(
                &mut m,
                ".criterion duplicates a mapped acceptance criterion; combine its evidence references under one stable id",
            );
            return Some(m);
        }
        j = j + 1;
    }
    if mapping.assertions.len() == 0 && mapping.artifacts.len() == 0 {
        let mut m = path;
        push_str(&mut m, " must reference at least one assertion or artifact");
        return Some(m);
    }
    if mapping.assertions.len() > 256 {
        let mut m = path;
        push_str(&mut m, ".assertions must contain at most 256 entries");
        return Some(m);
    }
    if mapping.artifacts.len() > 16 {
        let mut m = path;
        push_str(&mut m, ".artifacts must contain at most 16 entries");
        return Some(m);
    }
    let ghost refs = reference_views(mapping.assertions@);
    let ghost ref_check = reference_checker(path@, refs);
    let mut j: usize = 0;
    while j < mapping.assertions.len()
        invariant
            j <= mapping.assertions.len(),
            refs == reference_views(mapping.assertions@),
            ref_check == reference_checker(path@, refs),
            first_problem(j as nat, ref_check) is None,
        decreases mapping.assertions.len() - j,
    {
        match reference_problem(path.as_str(), &mapping.assertions, j) {
            Some(m) => {
                proof {
                    lemma_first_problem_stable((j + 1) as nat, refs.len(), ref_check);
                }
                return Some(m);
            },
            None => {},
        }
        j = j + 1;
    }
    let ghost arts = texts(mapping.artifacts@);
    let ghost art_check = artifact_checker(path@, acc.report_formats, arts);
    let mut k: usize = 0;
    while k < mapping.artifacts.len()
        invariant
            k <= mapping.artifacts.len(),
            arts == texts(mapping.artifacts@),
            acc == acceptance@,
            art_check == artifact_checker(path@, acc.report_formats, arts),
            first_problem(k as nat, art_check) is None,
        decreases mapping.artifacts.len() - k,
    {
        match artifact_problem(path.as_str(), &acceptance.report_formats, &mapping.artifacts, k) {
            Some(m) => {
                proof {
                    lemma_first_problem_stable((k + 1) as nat, arts.len(), art_check);
                }
                return Some(m);
            },
            None => {},
        }
        k = k + 1;
    }
    None
}

/// Checks the acceptance section of an adapter contract: bounded lists,
/// well-formed and distinct report formats, well-formed and distinct
/// criteria when mappings exist, and mappings whose ids, criteria,
/// assertion references and artifacts resolve. The first problem, in
/// document order, is the error.
#[verifier::loop_isolation(false)]
pub fn validate_acceptance_mappings(acceptance: &AdapterAcceptance) -> (r: Result<(), ScenarioError>)
    ensures
        match r {
            Ok(()) => acceptance_problem(acceptance@) is None,
            Err(ScenarioError::InvalidAdapterContract(m)) => acceptance_problem(acceptance@)
                == Some(m@),
            Err(_) => false,
        },
{
    let ghost acc = acceptance@;
    if acceptance.criteria.len() > 256 {
        return Err(
            ScenarioError::InvalidAdapterContract(
                to_owned("acceptance.criteria must contain at most 256 entries"),
            ),
        );
    }
    if acceptance.mappings.len() > 256 {
        return Err(
            ScenarioError::InvalidAdapterContract(
                to_owned("acceptance.mappings must contain at most 256 entries"),
            ),
        );
    }
    if acceptance.report_formats.len() > 16 {
        return Err(
            ScenarioError::InvalidAdapterContract(
                to_owned("acceptance.report_formats must contain at most 16 entries"),
            ),
        );
    }
    let ghost fcheck = format_checker(acc.report_formats);
    let mut i: usize = 0;
    while i < acceptance.report_formats.len()
        invariant
            i <= acceptance.report_formats.len(),
            acc == acceptance@,
            fcheck == format_checker(acc.report_formats),
            first_problem(i as nat, fcheck) is None,
        decreases acceptance.report_formats.len() - i,
    {
        match format_problem(&acceptance.report_formats, i) {
            Some(m) => {
                proof {
                    lemma_first_problem_stable((i + 1) as nat, acc.report_formats.len(), fcheck);
                }
                return Err(ScenarioError::InvalidAdapterContract(m));
            },
            None => {},
        }
        i = i + 1;
    }
    let ghost ccheck = criterion_checker(acc.criteria);
    if acceptance.mappings.len() > 0 {
        let mut i: usize = 0;
        while i < acceptance.criteria.len()
            invariant
                i <= acceptance.criteria.len(),
                acc == acceptance@,
                acceptance.mappings.len() > 0,
                ccheck == criterion_checker(acc.criteria),
                first_problem(acc.report_formats.len(), fcheck) is None,
                fcheck == format_checker(acc.report_formats),
                first_problem(i as nat, ccheck) is None,
            decreases acceptance.criteria.len() - i,
        {
            match criterion_problem(&acceptance.criteria, i) {
                Some(m) => {
                    proof {
                        lemma_first_problem_stable((i + 1) as nat, acc.criteria.len(), ccheck);
                    }
                    return Err(ScenarioError::InvalidAdapterContract(m));
                },
                None => {},
            }
            i = i + 1;
        }
    }
    let ghost mcheck = mapping_checker(acc);
    let mut i: usize = 0;
    while i < acceptance.mappings.len()
        invariant
            i <= acceptance.mappings.len(),
            acc == acceptance@,
            mcheck == mapping_checker(acc),
            first_problem(acc.report_formats.len(), fcheck) is None,
            fcheck == format_checker(acc.report_formats),
            ccheck == criterion_checker(acc.criteria),
            acc.mappings.len() > 0 ==> first_problem(acc.criteria.len(), ccheck) is None,
            first_problem(i as nat, mcheck) is None,
        decreases acceptance.mappings.len() - i,
    {
        match mapping_problem(acceptance, i) {
            Some(m) => {
                proof {
                    lemma_first_problem_stable((i + 1) as nat, acc.mappings.len(), mcheck);
                }
                return Err(ScenarioError::InvalidAdapterContract(m));
            },
            None => {},
        }
        i = i + 1;
    }
    Ok(())
}

} // verus!

//! Cross-checking an adapter contract's evidence references against the
//! scenarios supplied with it: every referenced scenario must be among
//! them, and every referenced assertion must be a named assertion of that
//! scenario. Nothing is claimed about artifacts that already exist.

use vstd::prelude::*;

use crate::adapter::{index_path, index_path_text, AdapterAssertionReference, AdapterAcceptanceMapping};
use crate::adapter_contract::{adapter_contract_problem, validate_adapter_contract, AdapterContract};
use crate::checks::{sanitize_diagnostic_value, sanitized};
use crate::mqtt_contract::{first_issue, lemma_first_issue_none, lemma_first_issue_stable, verdict_table};
use crate::scenario::ScenarioError;
use crate::text::{concat2, push_str, str_eq, to_owned};
use crate::typed::AssertionDef;
use crate::validate::{
    reports, scenario_problem, times_readable, validate_scenario, ScenarioDef, ScenarioFacts, ScenarioProblem,
};

verus! {

/// At most this many scenarios can be supplied.
pub const MAX_MAPPING_SCENARIOS: usize = 256;

/// At most this many assertions per supplied scenario.
pub const MAX_ASSERTIONS_PER_SCENARIO: usize = 4096;

/// Whether an assertion carries the evidence name `name`.
pub open spec fn named(a: AssertionDef, name: Seq<char>) -> bool {
    a.name matches Some(n) && n@ == name
}

/// Whether a supplied scenario is called `name`.
pub open spec fn has_scenario(ss: Seq<ScenarioDef>, name: Seq<char>) -> bool {
    exists|i: int| 0 <= i < ss.len() && (#[trigger] ss[i]).name@ == name
}

/// Whether a supplied scenario called `scenario` names an assertion
/// `assertion`.
pub open spec fn has_named_assertion(ss: Seq<ScenarioDef>, scenario: Seq<char>, assertion: Seq<char>) -> bool {
    exists|i: int, k: int|
        0 <= i < ss.len() && (#[trigger] ss[i]).name@ == scenario && 0 <= k < ss[i].assertions@.len()
            && named(#[trigger] ss[i].assertions@[k], assertion)
}

/// What is wrong with the `i`-th supplied scenario: too many assertions,
/// a problem of its own, or a name an earlier one has.
pub open spec fn input_check(ss: Seq<ScenarioDef>, fs: Seq<ScenarioFacts>, i: int) -> Option<ScenarioProblem> {
    let s = ss[i];
    if s.assertions@.len() > MAX_ASSERTIONS_PER_SCENARIO {
        Some(
            ScenarioProblem::ScenarioContract {
                field: "assertions"@,
                reason: "must contain at most 4096 items"@,
            },
        )
    } else {
        match scenario_problem(s, fs[i]) {
            Some(p) => Some(p),
            None => if exists|j: int| 0 <= j < i && (#[trigger] ss[j]).name@ == s.name@ {
                Some(
                    ScenarioProblem::AdapterContract(
                        "scenario input duplicates scenario.name "@ + sanitized(s.name@),
                    ),
                )
            } else {
                None
            },
        }
    }
}

pub open spec fn input_checker(ss: Seq<ScenarioDef>, fs: Seq<ScenarioFacts>) -> spec_fn(int) -> Option<ScenarioProblem> {
    |i: int| input_check(ss, fs, i)
}

/// The path of the `j`-th assertion reference of the `i`-th mapping.
pub open spec fn reference_path(i: int, j: int) -> Seq<char> {
    index_path(index_path("acceptance.mappings"@, i) + ".assertions"@, j)
}

/// A reference that does not resolve among the supplied scenarios.
pub open spec fn resolve_check(ss: Seq<ScenarioDef>, path: Seq<char>, r: AdapterAssertionReference) -> Option<
    ScenarioProblem,
> {
    if !has_scenario(ss, r.scenario@) {
        Some(
            ScenarioProblem::AdapterContract(
                path + ".scenario references missing supplied scenario "@ + r.scenario@,
            ),
        )
    } else if !has_named_assertion(ss, r.scenario@, r.assertion@) {
        Some(
            ScenarioProblem::AdapterContract(
                path + ".assertion references missing named assertion "@ + r.assertion@ + " in scenario "@
                    + r.scenario@,
            ),
        )
    } else {
        None
    }
}

pub open spec fn reference_resolver(ss: Seq<ScenarioDef>, i: int, refs: Seq<AdapterAssertionReference>) -> spec_fn(
    int,
) -> Option<ScenarioProblem> {
    |j: int| resolve_check(ss, reference_path(i, j), refs[j])
}

pub open spec fn mapping_resolver(ss: Seq<ScenarioDef>, ms: Seq<AdapterAcceptanceMapping>) -> spec_fn(int) -> Option<
    ScenarioProblem,
> {
    |i: int| first_issue(ms[i].assertions@.len(), reference_resolver(ss, i, ms[i].assertions@))
}

/// The first problem of a contract with the scenarios supplied for it: the
/// contract itself, the number of scenarios, each scenario in order, then
/// each evidence reference in order.
pub open spec fn scenario_mapping_problem(
    c: AdapterContract,
    vt: Seq<Seq<Option<Seq<char>>>>,
    ss: Seq<ScenarioDef>,
    fs: Seq<ScenarioFacts>,
) -> Option<ScenarioProblem> {
    match adapter_contract_problem(c, vt) {
        Some(p) => Some(ScenarioProblem::Contract(p)),
        None => if ss.len() > MAX_MAPPING_SCENARIOS {
            Some(ScenarioProblem::AdapterContract("scenario inputs must contain at most 256 entries"@))
        } else {
            match first_issue(ss.len(), input_checker(ss, fs)) {
                Some(p) => Some(p),
                None => first_issue(c.acceptance.mappings@.len(), mapping_resolver(ss, c.acceptance.mappings@)),
            }
        },
    }
}

/// The first supplied scenario called `name`.
fn find_scenario(ss: &Vec<ScenarioDef>, name: &str) -> (r: Option<usize>)
    ensures
        match r {
            Some(k) => k < ss@.len() && ss@[k as int].name@ == name@,
            None => !has_scenario(ss@, name@),
        },
{
    let mut k: usize = 0;
    while k < ss.len()
        invariant
            k <= ss.len(),
            forall|j: int| 0 <= j < k ==> (#[trigger] ss@[j]).name@ != name@,
        decreases ss.len() - k,
    {
        if str_eq(ss[k].name.as_str(), name) {
            return Some(k);
        }
        k = k + 1;
    }
    None
}

/// Whether a scenario names an assertion `name`.
fn names_assertion(s: &ScenarioDef, name: &str) -> (b: bool)
    ensures
        b == exists|k: int| 0 <= k < s.assertions@.len() && named(#[trigger] s.assertions@[k], name@),
{
    let mut k: usize = 0;
    while k < s.assertions.len()
        invariant
            k <= s.assertions.len(),
            forall|j: int| 0 <= j < k ==> !named(#[trigger] s.assertions@[j], name@),
        decreases s.assertions.len() - k,
    {
        match &s.assertions[k].name {
            Some(n) => {
                if str_eq(n.as_str(), name) {
                    return true;
                }
            },
            None => {},
        }
        k = k + 1;
    }
    false
}

/// Whether an earlier scenario than the `i`-th has its name.
fn repeats_earlier_name(ss: &Vec<ScenarioDef>, i: usize) -> (b: bool)
    requires
        i < ss@.len(),
    ensures
        b == exists|j: int| 0 <= j < i && (#[trigger] ss@[j]).name@ == ss@[i as int].name@,
{
    let mut j: usize = 0;
    while j < i
        invariant
            j <= i < ss@.len(),
            forall|k: int| 0 <= k < j ==> (#[trigger] ss@[k]).name@ != ss@[i as int].name@,
        decreases i - j,
    {
        if str_eq(ss[j].name.as_str(), ss[i].name.as_str()) {
            return true;
        }
        j = j + 1;
    }
    false
}

/// Checks each supplied scenario in order.
fn check_inputs(scenarios: &Vec<ScenarioDef>, facts: &Vec<ScenarioFacts>) -> (r: Result<(), ScenarioError>)
    requires
        facts@.len() == scenarios@.len(),
        forall|i: int| 0 <= i < scenarios@.len() ==> times_readable(#[trigger] scenarios@[i]),
    ensures
        reports(r, first_issue(scenarios@.len(), input_checker(scenarios@, facts@))),
{
    let ghost check = input_checker(scenarios@, facts@);
    let mut i: usize = 0;
    while i < scenarios.len()
        invariant
            i <= scenarios.len(),
            facts@.len() == scenarios@.len(),
            forall|i: int| 0 <= i < scenarios@.len() ==> times_readable(#[trigger] scenarios@[i]),
            check == input_checker(scenarios@, facts@),
            first_issue(i as nat, check) is None,
        decreases scenarios.len() - i,
    {
        let s = &scenarios[i];
        if s.assertions.len() > MAX_ASSERTIONS_PER_SCENARIO {
            proof {
                lemma_first_issue_stable((i + 1) as nat, scenarios@.len(), check);
            }
            return Err(
                ScenarioError::ScenarioContract {
                    field: to_owned("assertions"),
                    reason: to_owned("must contain at most 4096 items"),
                },
            );
        }
        match validate_scenario(s, &facts[i]) {
            Ok(_) => {},
            Err(e) => {
                proof {
                    lemma_first_issue_stable((i + 1) as nat, scenarios@.len(), check);
                }
                return Err(e);
            },
        }
        if repeats_earlier_name(scenarios, i) {
            proof {
                lemma_first_issue_stable((i + 1) as nat, scenarios@.len(), check);
            }
            return Err(
                ScenarioError::InvalidAdapterContract(
                    concat2(
                        "scenario input duplicates scenario.name ",
                        sanitize_diagnostic_value(s.name.as_str()).as_str(),
                    ),
                ),
            );
        }
        i = i + 1;
    }
    Ok(())
}

/// Resolves one evidence reference among the supplied scenarios, whose
/// names are distinct.
fn resolve_reference(ss: &Vec<ScenarioDef>, i: usize, j: usize, r: &AdapterAssertionReference) -> (res: Result<
    (),
    ScenarioError,
>)
    requires
        forall|a: int, b: int| 0 <= a < b < ss@.len() ==> (#[trigger] ss@[a]).name@ != (#[trigger] ss@[b]).name@,
    ensures
        reports(res, resolve_check(ss@, reference_path(i as int, j as int), *r)),
{
    let path = index_path_text(concat2(index_path_text("acceptance.mappings", i).as_str(), ".assertions").as_str(), j);
    match find_scenario(ss, r.scenario.as_str()) {
        None => {
            let mut msg = path;
            push_str(&mut msg, ".scenario references missing supplied scenario ");
            push_str(&mut msg, r.scenario.as_str());
            Err(ScenarioError::InvalidAdapterContract(msg))
        },
        Some(k) => {
            if names_assertion(&ss[k], r.assertion.as_str()) {
                Ok(())
            } else {
                proof {
                    assert forall|a: int, b: int|
                        0 <= a < ss@.len() && (#[trigger] ss@[a]).name@ == r.scenario@ && 0 <= b
                            < ss@[a].assertions@.len() implies !named(
                        #[trigger] ss@[a].assertions@[b],
                        r.assertion@,
                    ) by {
                        if a != k {
                            if a < k {
                                assert(ss@[a].name@ != ss@[k as int].name@);
                            } else {
                                assert(ss@[k as int].name@ != ss@[a].name@);
                            }
                        }
                    }
                }
                let mut msg = path;
                push_str(&mut msg, ".assertion references missing named assertion ");
                push_str(&mut msg, r.assertion.as_str());
                push_str(&mut msg, " in scenario ");
                push_str(&mut msg, r.scenario.as_str());
                Err(ScenarioError::InvalidAdapterContract(msg))
            }
        },
    }
}

/// Resolves the evidence references of each acceptance mapping in order.
fn resolve_mappings(ss: &Vec<ScenarioDef>, ms: &Vec<AdapterAcceptanceMapping>) -> (r: Result<(), ScenarioError>)
    requires
        forall|a: int, b: int| 0 <= a < b < ss@.len() ==> (#[trigger] ss@[a]).name@ != (#[trigger] ss@[b]).name@,
    ensures
        reports(r, first_issue(ms@.len(), mapping_resolver(ss@, ms@))),
{
    let ghost check = mapping_resolver(ss@, ms@);
    let mut i: usize = 0;
    while i < ms.len()
        invariant
            i <= ms.len(),
            forall|a: int, b: int| 0 <= a < b < ss@.len() ==> (#[trigger] ss@[a]).name@ != (#[trigger] ss@[b]).name@,
            check == mapping_resolver(ss@, ms@),
            first_issue(i as nat, check) is None,
        decreases ms.len() - i,
    {
        let refs = &ms[i].assertions;
        let ghost inner = reference_resolver(ss@, i as int, refs@);
        let mut j: usize = 0;
        while j < refs.len()
            invariant
                i < ms.len(),
                j <= refs.len(),
                refs@ == ms@[i as int].assertions@,
                forall|a: int, b: int| 0 <= a < b < ss@.len() ==> (#[trigger] ss@[a]).name@ != (#[trigger] ss@[b]).name@,
                check == mapping_resolver(ss@, ms@),
                first_issue(i as nat, check) is None,
                inner == reference_resolver(ss@, i as int, refs@),
                first_issue(j as nat, inner) is None,
            decreases refs.len() - j,
        {
            match resolve_reference(ss, i, j, &refs[j]) {
                Ok(()) => {},
                Err(e) => {
                    proof {
                        lemma_first_issue_stable((j + 1) as nat, refs@.len(), inner);
                        assert(check(i as int) == first_issue(refs@.len(), inner));
                        lemma_first_issue_stable((i + 1) as nat, ms@.len(), check);
                    }
                    return Err(e);
                },
            }
            j = j + 1;
        }
        assert(check(i as int) == first_issue(refs@.len(), inner));
        i = i + 1;
    }
    Ok(())
}

/// Cross-checks an adapter contract's evidence references against the
/// scenarios supplied with it. The contract must be valid
/// (`constraint_verdicts` holds the outcome of its floating-point field
/// constraints); at most 256 scenarios may be supplied, each with at most
/// 4096 assertions, each valid (`facts[i]` holds the floating-point facts
/// of `scenarios[i]`), and no two with the same name; every referenced
/// scenario must be supplied and every referenced assertion must be a
/// named assertion of it. This only proves that the references resolve,
/// not that any artifact exists. The first problem is the error.
pub fn validate_adapter_scenario_mapping(
    contract: &AdapterContract,
    constraint_verdicts: &Vec<Vec<Option<String>>>,
    scenarios: &Vec<ScenarioDef>,
    facts: &Vec<ScenarioFacts>,
) -> (r: Result<(), ScenarioError>)
    requires
        facts@.len() == scenarios@.len(),
        forall|i: int| 0 <= i < scenarios@.len() ==> times_readable(#[trigger] scenarios@[i]),
    ensures
        reports(
            r,
            scenario_mapping_problem(*contract, verdict_table(constraint_verdicts@), scenarios@, facts@),
        ),
{
    match validate_adapter_contract(contract, constraint_verdicts) {
        Ok(()) => {},
        Err(e) => {
            return Err(e);
        },
    }
    if scenarios.len() > MAX_MAPPING_SCENARIOS {
        return Err(
            ScenarioError::InvalidAdapterContract(to_owned("scenario inputs must contain at most 256 entries")),
        );
    }
    match check_inputs(scenarios, facts) {
        Ok(()) => {},
        Err(e) => {
            return Err(e);
        },
    }
    proof {
        let check = input_checker(scenarios@, facts@);
        lemma_first_issue_none(scenarios@.len(), check);
        assert forall|a: int, b: int| 0 <= a < b < scenarios@.len() implies (#[trigger] scenarios@[a]).name@
            != (#[trigger] scenarios@[b]).name@ by {
            assert(check(b) is None);
        }
    }
    resolve_mappings(scenarios, &contract.acceptance.mappings)
}

} // verus!

//! Rendering a report for a person.
//!
//! A Markdown report is what a person reads. It may choose what is worth showing,
//! and it is required to say what the result does not establish. Every interpolated
//! value passes through [`crate::sanitise::sanitise`], because contract-supplied text
//! could otherwise restructure the document around it.
use vstd::prelude::*;

use crate::report_model::{Report, ReportedAssertion, ReportedDiagnostic, Summary, VectorResult};
use crate::sanitise::{sanitise, spec_sanitise};
use crate::taxonomy::ConformanceStatus;
use crate::text::{
    decimal_text, occurs_in, push_str, signed_decimal_text, spec_decimal, spec_ends_with, spec_signed_decimal,
    str_eq,
};
use crate::vector_model::AssertionCategory;

verus! {

/// The limitation a reader must not have to infer.
pub const NOT_A_SECURITY_GUARANTEE: &'static str = "## What this report does not establish\n\nEstamora verifies defined behavioural compatibility with a profile. It is not a security audit,\nand it does not certify that a contract is safe.\n\n- Passing conformance vectors does not prove the absence of vulnerabilities.\n- Conformance is scoped to the requirements the profile states; a property no\n  profile requires is not measured, whatever its importance.\n- A profile is a document with an author. Its provenance and version matter, and\n  a profile that is not trusted must not be treated as a standard.\n- Estamora does not replace formal verification, an independent audit,\n  penetration testing, economic analysis or vulnerability research.\n\nEstamora answers one question: whether a contract's actual behaviour conforms to a\ndefined profile. Nothing in this document should be read as a stronger claim.\n";

/// What a verdict means, in one sentence.
pub open spec fn spec_lead(status: ConformanceStatus) -> Seq<char> {
    match status {
        ConformanceStatus::Conformant => "The contract satisfied every requirement the profile marks as required."@,
        ConformanceStatus::PartiallyConformant => "The contract satisfied some required vectors and violated others."@,
        ConformanceStatus::NonConformant => "The contract violated required behavioural requirements."@,
        ConformanceStatus::Inconclusive => "The suite could not reach a decision: some required vectors could not be executed, and the unexecuted ones may contain a failure."@,
        ConformanceStatus::ExecutionError => "The environment failed, so no verdict about the contract was reached. The contract is not implicated."@,
        ConformanceStatus::ProfileError => "The requirements were unusable, so they were never applied to the contract."@,
    }
}

fn lead(status: ConformanceStatus) -> (res: &'static str)
    ensures
        res@ == spec_lead(status),
{
    match status {
        ConformanceStatus::Conformant => "The contract satisfied every requirement the profile marks as required.",
        ConformanceStatus::PartiallyConformant => "The contract satisfied some required vectors and violated others.",
        ConformanceStatus::NonConformant => "The contract violated required behavioural requirements.",
        ConformanceStatus::Inconclusive => "The suite could not reach a decision: some required vectors could not be executed, and the unexecuted ones may contain a failure.",
        ConformanceStatus::ExecutionError => "The environment failed, so no verdict about the contract was reached. The contract is not implicated.",
        ConformanceStatus::ProfileError => "The requirements were unusable, so they were never applied to the contract.",
    }
}

/// The headline: the status in bold, what it means, and the exit code.
pub open spec fn spec_verdict(report: Report) -> Seq<char> {
    "**"@ + report.status.spec_name() + "** — "@ + spec_lead(report.status)
        + "\n\nProcess exit code `"@ + spec_signed_decimal(report.exit_code as int) + "`.\n"@
}

fn verdict(report: &Report) -> (res: String)
    ensures
        res@ == spec_verdict(*report),
{
    let mut out = String::new();
    push_str(&mut out, "**");
    push_str(&mut out, report.status.as_str());
    push_str(&mut out, "** — ");
    push_str(&mut out, lead(report.status));
    push_str(&mut out, "\n\nProcess exit code `");
    let code = signed_decimal_text(report.exit_code as i64);
    push_str(&mut out, code.as_str());
    push_str(&mut out, "`.\n");
    out
}

/// One row of the dimension table.
pub open spec fn spec_dimension_row(summary: Summary, c: AssertionCategory) -> Seq<char> {
    let t = summary.tally(c);
    "| "@ + c.spec_name() + " | "@ + spec_decimal(t.passed as nat) + " | "@ + spec_decimal(t.failed as nat)
        + " | "@ + spec_decimal(t.total as nat) + " | "@ + spec_decimal(t.warnings as nat) + " |\n"@
}

fn dimension_row(summary: &Summary, c: AssertionCategory) -> (res: String)
    ensures
        res@ == spec_dimension_row(*summary, c),
{
    let t = summary.dimension(c);
    let mut out = String::new();
    push_str(&mut out, "| ");
    push_str(&mut out, c.as_str());
    push_str(&mut out, " | ");
    push_str(&mut out, decimal_text(t.passed as u64).as_str());
    push_str(&mut out, " | ");
    push_str(&mut out, decimal_text(t.failed as u64).as_str());
    push_str(&mut out, " | ");
    push_str(&mut out, decimal_text(t.total as u64).as_str());
    push_str(&mut out, " | ");
    push_str(&mut out, decimal_text(t.warnings as u64).as_str());
    push_str(&mut out, " |\n");
    out
}

/// The dimension table's rows, in the schema's order.
pub open spec fn spec_dimension_rows(summary: Summary, n: int) -> Seq<char>
    decreases n,
{
    if n <= 0 {
        seq![]
    } else {
        spec_dimension_rows(summary, n - 1) + spec_dimension_row(summary, AssertionCategory::spec_all()[n - 1])
    }
}

fn dimension_rows(summary: &Summary) -> (res: String)
    ensures
        res@ == spec_dimension_rows(*summary, 7),
{
    let all = AssertionCategory::all();
    let mut out = String::new();
    let mut i: usize = 0;
    while i < all.len()
        invariant
            all@ == AssertionCategory::spec_all(),
            i <= all@.len(),
            out@ == spec_dimension_rows(*summary, i as int),
        decreases all@.len() - i,
    {
        let row = dimension_row(summary, all[i]);
        push_str(&mut out, row.as_str());
        i = i + 1;
    }
    out
}

/// Whether a vector result is not a pass.
pub open spec fn not_passed(result: VectorResult) -> bool {
    result.status@ != "passed"@
}

/// Whether a check did not hold.
pub open spec fn check_failed(check: ReportedAssertion) -> bool {
    check.status@ == "failed"@
}

/// The table rows of a vector's failing checks.
pub open spec fn spec_failure_rows(checks: Seq<ReportedAssertion>) -> Seq<char>
    decreases checks.len(),
{
    if checks.len() == 0 {
        seq![]
    } else {
        let c = checks.last();
        spec_failure_rows(checks.drop_last()) + if check_failed(c) {
            "| `"@ + spec_sanitise(c.id@) + "` | "@ + spec_sanitise(c.category@) + " | "@
                + spec_sanitise(c.expected@) + " | "@ + spec_sanitise(c.observed@) + " |\n"@
        } else {
            seq![]
        }
    }
}

/// Whether any check failed.
pub open spec fn any_failed(checks: Seq<ReportedAssertion>) -> bool {
    exists|i: int| 0 <= i < checks.len() && check_failed(#[trigger] checks[i])
}

/// The bullet list of a vector's findings.
pub open spec fn spec_finding_rows(findings: Seq<ReportedDiagnostic>) -> Seq<char>
    decreases findings.len(),
{
    if findings.len() == 0 {
        seq![]
    } else {
        let f = findings.last();
        spec_finding_rows(findings.drop_last()) + "- `"@ + spec_sanitise(f.code@) + "`: "@
            + spec_sanitise(f.message@) + "\n"@
    }
}

/// One vector's section: its identity, its failing checks, and its findings.
pub open spec fn spec_one_vector(result: VectorResult) -> Seq<char> {
    let head = "### `"@ + spec_sanitise(result.vector_id@) + "` — "@ + spec_sanitise(result.status@) + "\n\n"@
        + "Category: "@ + spec_sanitise(result.category@) + "\n\n"@;
    let checks = if any_failed(result.assertions@) {
        "| Check | Dimension | Expected | Observed |\n"@ + "| --- | --- | --- | --- |\n"@
            + spec_failure_rows(result.assertions@) + "\n"@
    } else {
        "No individual check failed; the vector could not be decided.\n\n"@
    };
    let findings = if result.diagnostics@.len() > 0 {
        "Findings:\n\n"@ + spec_finding_rows(result.diagnostics@) + "\n"@
    } else {
        seq![]
    };
    head + checks + findings
}

fn failure_rows(checks: &Vec<ReportedAssertion>) -> (res: (String, bool))
    ensures
        res.0@ == spec_failure_rows(checks@),
        res.1 == any_failed(checks@),
{
    let mut out = String::new();
    let mut any = false;
    let mut i: usize = 0;
    while i < checks.len()
        invariant
            i <= checks@.len(),
            out@ == spec_failure_rows(checks@.take(i as int)),
            any == any_failed(checks@.take(i as int)),
        decreases checks@.len() - i,
    {
        proof { assert(checks@.take(i as int + 1).drop_last() =~= checks@.take(i as int)); }
        let c = &checks[i];
        if str_eq(c.status.as_str(), "failed") {
            push_str(&mut out, "| `");
            push_str(&mut out, sanitise(c.id.as_str()).as_str());
            push_str(&mut out, "` | ");
            push_str(&mut out, sanitise(c.category.as_str()).as_str());
            push_str(&mut out, " | ");
            push_str(&mut out, sanitise(c.expected.as_str()).as_str());
            push_str(&mut out, " | ");
            push_str(&mut out, sanitise(c.observed.as_str()).as_str());
            push_str(&mut out, " |\n");
            any = true;
            proof { assert(check_failed(checks@.take(i as int + 1)[i as int])); }
        } else {
            proof {
                assert(out@ =~= spec_failure_rows(checks@.take(i as int + 1)));
                assert forall|j: int| 0 <= j < i + 1 && check_failed(#[trigger] checks@.take(i as int + 1)[j])
                    implies any_failed(checks@.take(i as int)) by {
                    assert(checks@.take(i as int)[j] == checks@[j]);
                }
            }
        }
        i = i + 1;
    }
    proof { assert(checks@.take(i as int) =~= checks@); }
    (out, any)
}

fn finding_rows(findings: &Vec<ReportedDiagnostic>) -> (res: String)
    ensures
        res@ == spec_finding_rows(findings@),
{
    let mut out = String::new();
    let mut i: usize = 0;
    while i < findings.len()
        invariant
            i <= findings@.len(),
            out@ == spec_finding_rows(findings@.take(i as int)),
        decreases findings@.len() - i,
    {
        proof { assert(findings@.take(i as int + 1).drop_last() =~= findings@.take(i as int)); }
        let f = &findings[i];
        push_str(&mut out, "- `");
        push_str(&mut out, sanitise(f.code.as_str()).as_str());
        push_str(&mut out, "`: ");
        push_str(&mut out, sanitise(f.message.as_str()).as_str());
        push_str(&mut out, "\n");
        i = i + 1;
    }
    proof { assert(findings@.take(i as int) =~= findings@); }
    out
}

/// One vector's failing checks and findings.
fn one_vector(result: &VectorResult) -> (res: String)
    ensures
        res@ == spec_one_vector(*result),
{
    let mut out = String::new();
    push_str(&mut out, "### `");
    push_str(&mut out, sanitise(result.vector_id.as_str()).as_str());
    push_str(&mut out, "` — ");
    push_str(&mut out, sanitise(result.status.as_str()).as_str());
    push_str(&mut out, "\n\n");
    push_str(&mut out, "Category: ");
    push_str(&mut out, sanitise(result.category.as_str()).as_str());
    push_str(&mut out, "\n\n");
    let ghost head = out@;
    let (rows, any) = failure_rows(&result.assertions);
    let mut checks = String::new();
    if any {
        push_str(&mut checks, "| Check | Dimension | Expected | Observed |\n");
        push_str(&mut checks, "| --- | --- | --- | --- |\n");
        push_str(&mut checks, rows.as_str());
        push_str(&mut checks, "\n");
    } else {
        push_str(&mut checks, "No individual check failed; the vector could not be decided.\n\n");
    }
    let mut findings = String::new();
    if result.diagnostics.len() > 0 {
        push_str(&mut findings, "Findings:\n\n");
        push_str(&mut findings, finding_rows(&result.diagnostics).as_str());
        push_str(&mut findings, "\n");
    }
    push_str(&mut out, checks.as_str());
    push_str(&mut out, findings.as_str());
    proof {
        assert(checks@ =~= (if any_failed(result.assertions@) {
            "| Check | Dimension | Expected | Observed |\n"@ + "| --- | --- | --- | --- |\n"@
                + spec_failure_rows(result.assertions@) + "\n"@
        } else {
            "No individual check failed; the vector could not be decided.\n\n"@
        }));
    }
    out
}

/// The sections of the vectors that are not a pass, in order, and how many there are.
pub open spec fn spec_vector_sections(results: Seq<VectorResult>) -> (Seq<char>, nat)
    decreases results.len(),
{
    if results.len() == 0 {
        (seq![], 0)
    } else {
        let (text, count) = spec_vector_sections(results.drop_last());
        if not_passed(results.last()) {
            (text + spec_one_vector(results.last()), count + 1)
        } else {
            (text, count)
        }
    }
}

/// The results section: either that every vector passed, or how many did not and a
/// section for each of them.
pub open spec fn spec_results(results: Seq<VectorResult>) -> Seq<char> {
    let (text, count) = spec_vector_sections(results);
    if count == 0 {
        "## Results\n\nEvery vector the profile required passed.\n\n"@
    } else {
        "## Results\n\n"@ + spec_decimal(count) + " of "@ + spec_decimal(results.len()) + " vector results are not a pass.\n\n"@ + text
    }
}

proof fn lemma_sections_count_bounded(results: Seq<VectorResult>)
    ensures
        spec_vector_sections(results).1 <= results.len(),
    decreases results.len(),
{
    if results.len() > 0 {
        lemma_sections_count_bounded(results.drop_last());
    }
}

fn results_section(results: &Vec<VectorResult>) -> (res: String)
    ensures
        res@ == spec_results(results@),
{
    let mut sections = String::new();
    let mut count: usize = 0;
    let mut i: usize = 0;
    while i < results.len()
        invariant
            i <= results@.len(),
            (sections@, count as nat) == spec_vector_sections(results@.take(i as int)),
        decreases results@.len() - i,
    {
        proof {
            assert(results@.take(i as int + 1).drop_last() =~= results@.take(i as int));
            lemma_sections_count_bounded(results@.take(i as int));
        }
        if !str_eq(results[i].status.as_str(), "passed") {
            let section = one_vector(&results[i]);
            push_str(&mut sections, section.as_str());
            count = count + 1;
        }
        i = i + 1;
    }
    proof { assert(results@.take(i as int) =~= results@); }
    let mut out = String::new();
    if count == 0 {
        push_str(&mut out, "## Results\n\nEvery vector the profile required passed.\n\n");
    } else {
        push_str(&mut out, "## Results\n\n");
        push_str(&mut out, decimal_text(count as u64).as_str());
        push_str(&mut out, " of ");
        push_str(&mut out, decimal_text(results.len() as u64).as_str());
        push_str(&mut out, " vector results are not a pass.\n\n");
        push_str(&mut out, sections.as_str());
    }
    out
}

/// The text a value is shown as in the table: a hash in code, or that none was resolved.
pub open spec fn spec_hash_cell(hash: Option<String>) -> Seq<char> {
    match hash {
        Some(h) => "`"@ + spec_sanitise(h@) + "`"@,
        None => "not resolved"@,
    }
}

/// What was measured, as a two-column table.
pub open spec fn spec_measured(report: Report) -> Seq<char> {
    "## What was measured\n\n"@ + "| | |\n| --- | --- |\n"@
        + "| Contract | `"@ + spec_sanitise(report.target.contract@) + "` |\n"@
        + "| Network | "@ + spec_sanitise(report.target.network@) + " |\n"@
        + "| WASM hash | "@ + spec_hash_cell(report.target.wasm_hash) + " |\n"@
        + "| Profile | `"@ + spec_sanitise(report.profile.id@) + "@"@ + spec_sanitise(report.profile.version@) + "` |\n"@
        + "| Vectors executed | "@ + spec_decimal(report.vectors.count as nat) + " |\n"@
        + "| Runner | "@ + spec_sanitise(report.runner.name@) + " "@ + spec_sanitise(report.runner.version@) + " |\n"@
        + "| Generated | "@ + spec_sanitise(report.generated_at@) + " |\n"@ + "\n"@
}

fn measured(report: &Report) -> (res: String)
    ensures
        res@ == spec_measured(*report),
{
    let mut out = String::new();
    push_str(&mut out, "## What was measured\n\n");
    push_str(&mut out, "| | |\n| --- | --- |\n");
    push_str(&mut out, "| Contract | `");
    push_str(&mut out, sanitise(report.target.contract.as_str()).as_str());
    push_str(&mut out, "` |\n");
    push_str(&mut out, "| Network | ");
    push_str(&mut out, sanitise(report.target.network.as_str()).as_str());
    push_str(&mut out, " |\n");
    push_str(&mut out, "| WASM hash | ");
    let cell = match &report.target.wasm_hash {
        Some(hash) => {
            let mut cell = String::new();
            push_str(&mut cell, "`");
            push_str(&mut cell, sanitise(hash.as_str()).as_str());
            push_str(&mut cell, "`");
            cell
        },
        None => {
            let mut cell = String::new();
            push_str(&mut cell, "not resolved");
            cell
        },
    };
    push_str(&mut out, cell.as_str());
    push_str(&mut out, " |\n");
    push_str(&mut out, "| Profile | `");
    push_str(&mut out, sanitise(report.profile.id.as_str()).as_str());
    push_str(&mut out, "@");
    push_str(&mut out, sanitise(report.profile.version.as_str()).as_str());
    push_str(&mut out, "` |\n");
    push_str(&mut out, "| Vectors executed | ");
    push_str(&mut out, decimal_text(report.vectors.count as u64).as_str());
    push_str(&mut out, " |\n");
    push_str(&mut out, "| Runner | ");
    push_str(&mut out, sanitise(report.runner.name.as_str()).as_str());
    push_str(&mut out, " ");
    push_str(&mut out, sanitise(report.runner.version.as_str()).as_str());
    push_str(&mut out, " |\n");
    push_str(&mut out, "| Generated | ");
    push_str(&mut out, sanitise(report.generated_at.as_str()).as_str());
    push_str(&mut out, " |\n");
    push_str(&mut out, "\n");
    out
}

/// The whole Markdown document.
pub open spec fn spec_render(report: Report) -> Seq<char> {
    "# Estamora conformance report\n\n"@ + spec_verdict(report) + "\n"@ + spec_measured(report)
        + "## Checks by dimension\n\n"@ + "| Dimension | Passed | Failed | Total | Warnings |\n"@
        + "| --- | --- | --- | --- | --- |\n"@ + spec_dimension_rows(report.summary, 7) + "\n"@
        + spec_results(report.results@) + NOT_A_SECURITY_GUARANTEE@
}

/// Renders a report as Markdown.
pub fn render(report: &Report) -> (res: String)
    ensures
        res@ == spec_render(*report),
{
    let mut out = String::new();
    push_str(&mut out, "# Estamora conformance report\n\n");
    push_str(&mut out, verdict(report).as_str());
    push_str(&mut out, "\n");
    push_str(&mut out, measured(report).as_str());
    push_str(&mut out, "## Checks by dimension\n\n");
    push_str(&mut out, "| Dimension | Passed | Failed | Total | Warnings |\n");
    push_str(&mut out, "| --- | --- | --- | --- | --- |\n");
    push_str(&mut out, dimension_rows(&report.summary).as_str());
    push_str(&mut out, "\n");
    push_str(&mut out, results_section(&report.results).as_str());
    push_str(&mut out, NOT_A_SECURITY_GUARANTEE);
    out
}

/// Every Markdown rendering names the verdict it is given, and ends by saying what
/// the result does not establish.
pub proof fn law_markdown_states_the_verdict_and_the_limitation(report: Report)
    ensures
        occurs_in(report.status.spec_name(), spec_render(report)),
        spec_ends_with(spec_render(report), NOT_A_SECURITY_GUARANTEE@),
{
    reveal_strlit("# Estamora conformance report\n\n");
    reveal_strlit("**");
    let r = spec_render(report);
    let title: Seq<char> = "# Estamora conformance report\n\n"@;
    let name = report.status.spec_name();
    let start: int = title.len() as int + 2;
    let v = spec_verdict(report);
    let head: int = title.len() as int + v.len() as int;
    assert(v.subrange(2, 2 + name.len() as int) =~= name);
    assert(r.subrange(0, head) =~= title + v);
    assert(r.subrange(start, start + name.len() as int) =~= name) by {
        assert forall|k: int| 0 <= k < name.len() implies r[start + k] == name[k] by {
            assert(r.subrange(0, head)[start + k] == (title + v)[start + k]);
            assert(v[2 + k] == name[k]);
        }
    }
    assert(r.skip(r.len() - NOT_A_SECURITY_GUARANTEE@.len()) =~= NOT_A_SECURITY_GUARANTEE@);
}

} // verus!

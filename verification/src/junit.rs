//! Rendering a report as `JUnit` XML.
//!
//! CI systems have parsed `JUnit` XML for two decades, so the same results are emitted
//! in that shape, with one deliberate difference from a unit-test report: a vector
//! whose result is not decidable is reported as an `error`, never as a `failure`, so a
//! CI gate cannot blame the contract for the runner's circumstances. Every
//! interpolated value is sanitised and then XML-escaped.
use vstd::prelude::*;

use crate::report_model::{Report, ReportedAssertion, ReportedDiagnostic, VectorResult};
use crate::sanitise::{sanitise, spec_sanitise};
use crate::text::{
    decimal_text, join, joined, occurs_in, owned, push_str, spec_decimal, spec_ends_with, spec_starts_with, str_eq, texts,
};

verus! {

/// A character as XML writes it inside an attribute or text: the five special
/// characters as entities, every other character as itself.
pub open spec fn xml_char(c: char) -> Seq<char> {
    if c == '<' {
        "&lt;"@
    } else if c == '>' {
        "&gt;"@
    } else if c == '&' {
        "&amp;"@
    } else if c == '\'' {
        "&apos;"@
    } else if c == '"' {
        "&quot;"@
    } else {
        seq![c]
    }
}

/// A text with XML's special characters written as entities.
pub open spec fn spec_xml(value: Seq<char>) -> Seq<char>
    decreases value.len(),
{
    if value.len() == 0 {
        seq![]
    } else {
        spec_xml(value.drop_last()) + xml_char(value.last())
    }
}

/// XML-escapes a value.
///
/// Calls `quick_xml::escape::escape`, which replaces `<`, `>`, `&`, `'` and `"` with
/// their entities and leaves every other character as it is; the contract states
/// exactly that.
#[verifier::external_body]
pub fn xml(value: &str) -> (res: String)
    ensures
        res@ == spec_xml(value@),
{
    quick_xml::escape::escape(value).into_owned()
}

/// The counts a `JUnit` consumer reads off the envelope.
#[derive(Debug, Clone, Copy, PartialEq, Eq, Structural)]
pub struct Totals {
    /// Every result.
    pub total: u32,
    /// Results that violated a requirement.
    pub failed: u32,
    /// Results that could not be decided.
    pub errored: u32,
    /// Results that were skipped.
    pub skipped: u32,
}

/// The counts over `results`: every result, and how many failed, errored, or were
/// neither passed, failed nor errored.
pub open spec fn spec_totals(results: Seq<VectorResult>) -> (nat, nat, nat, nat)
    decreases results.len(),
{
    if results.len() == 0 {
        (0, 0, 0, 0)
    } else {
        let (total, failed, errored, skipped) = spec_totals(results.drop_last());
        let status = results.last().status@;
        if status == "passed"@ {
            (total + 1, failed, errored, skipped)
        } else if status == "failed"@ {
            (total + 1, failed + 1, errored, skipped)
        } else if status == "error"@ {
            (total + 1, failed, errored + 1, skipped)
        } else {
            (total + 1, failed, errored, skipped + 1)
        }
    }
}

proof fn lemma_totals_bounded(results: Seq<VectorResult>)
    ensures
        spec_totals(results).0 == results.len(),
        spec_totals(results).1 <= results.len(),
        spec_totals(results).2 <= results.len(),
        spec_totals(results).3 <= results.len(),
    decreases results.len(),
{
    if results.len() > 0 {
        lemma_totals_bounded(results.drop_last());
    }
}

/// Counts the results.
pub fn totals(results: &Vec<VectorResult>) -> (res: Totals)
    requires
        results@.len() <= u32::MAX,
    ensures
        (res.total as nat, res.failed as nat, res.errored as nat, res.skipped as nat) == spec_totals(results@),
{
    let mut t = Totals { total: 0, failed: 0, errored: 0, skipped: 0 };
    let mut i: usize = 0;
    while i < results.len()
        invariant
            i <= results@.len() <= u32::MAX,
            (t.total as nat, t.failed as nat, t.errored as nat, t.skipped as nat) == spec_totals(results@.take(i as int)),
        decreases results@.len() - i,
    {
        proof {
            assert(results@.take(i as int + 1).drop_last() =~= results@.take(i as int));
            lemma_totals_bounded(results@.take(i as int));
        }
        let status = results[i].status.as_str();
        t.total = t.total + 1;
        if str_eq(status, "passed") {
        } else if str_eq(status, "failed") {
            t.failed = t.failed + 1;
        } else if str_eq(status, "error") {
            t.errored = t.errored + 1;
        } else {
            t.skipped = t.skipped + 1;
        }
        i = i + 1;
    }
    proof { assert(results@.take(i as int) =~= results@); }
    t
}

/// The lines describing a vector's failing checks, for the body of its element.
pub open spec fn spec_failure_lines(checks: Seq<ReportedAssertion>) -> Seq<Seq<char>>
    decreases checks.len(),
{
    if checks.len() == 0 {
        seq![]
    } else {
        let c = checks.last();
        let rest = spec_failure_lines(checks.drop_last());
        if c.status@ == "failed"@ {
            rest.push(c.id@ + " ["@ + c.category@ + "]\n  expected: "@ + spec_sanitise(c.expected@)
                + "\n  observed: "@ + spec_sanitise(c.observed@))
        } else {
            rest
        }
    }
}

/// The lines describing a vector's findings.
pub open spec fn spec_finding_lines(findings: Seq<ReportedDiagnostic>) -> Seq<Seq<char>> {
    findings.map_values(|f: ReportedDiagnostic| spec_sanitise(f.code@) + ": "@ + spec_sanitise(f.message@))
}

/// The body of a failure or error element: every failing check, then every finding,
/// one per line; or a line saying no individual check failed.
pub open spec fn spec_detail(result: VectorResult) -> Seq<char> {
    let lines = spec_failure_lines(result.assertions@) + spec_finding_lines(result.diagnostics@);
    if lines.len() == 0 {
        "No individual check failed."@
    } else {
        joined(lines, "\n"@)
    }
}

/// The one-line summaries of a vector's failing checks.
pub open spec fn spec_failure_summaries(checks: Seq<ReportedAssertion>) -> Seq<Seq<char>>
    decreases checks.len(),
{
    if checks.len() == 0 {
        seq![]
    } else {
        let c = checks.last();
        let rest = spec_failure_summaries(checks.drop_last());
        if c.status@ == "failed"@ {
            rest.push(c.id@ + " ["@ + c.category@ + "]: expected "@ + c.expected@ + ", observed "@ + c.observed@)
        } else {
            rest
        }
    }
}

fn render_detail(result: &VectorResult) -> (res: String)
    ensures
        res@ == spec_detail(*result),
{
    let mut lines: Vec<String> = Vec::new();
    let mut i: usize = 0;
    while i < result.assertions.len()
        invariant
            i <= result.assertions@.len(),
            texts(lines@) == spec_failure_lines(result.assertions@.take(i as int)),
        decreases result.assertions@.len() - i,
    {
        proof { assert(result.assertions@.take(i as int + 1).drop_last() =~= result.assertions@.take(i as int)); }
        let c = &result.assertions[i];
        if str_eq(c.status.as_str(), "failed") {
            let mut line = c.id.clone();
            push_str(&mut line, " [");
            push_str(&mut line, c.category.as_str());
            push_str(&mut line, "]\n  expected: ");
            push_str(&mut line, sanitise(c.expected.as_str()).as_str());
            push_str(&mut line, "\n  observed: ");
            push_str(&mut line, sanitise(c.observed.as_str()).as_str());
            let ghost before = lines@;
            lines.push(line);
            proof { assert(texts(lines@) =~= texts(before).push(line@)); }
        }
        i = i + 1;
    }
    proof { assert(result.assertions@.take(i as int) =~= result.assertions@); }
    let ghost failure_lines = texts(lines@);
    let mut k: usize = 0;
    while k < result.diagnostics.len()
        invariant
            k <= result.diagnostics@.len(),
            texts(lines@) == failure_lines + spec_finding_lines(result.diagnostics@.take(k as int)),
        decreases result.diagnostics@.len() - k,
    {
        let f = &result.diagnostics[k];
        let mut line = sanitise(f.code.as_str());
        push_str(&mut line, ": ");
        push_str(&mut line, sanitise(f.message.as_str()).as_str());
        let ghost before = lines@;
        lines.push(line);
        proof {
            assert(texts(lines@) =~= texts(before).push(line@));
            assert(spec_finding_lines(result.diagnostics@.take(k as int + 1))
                =~= spec_finding_lines(result.diagnostics@.take(k as int)).push(line@));
        }
        k = k + 1;
    }
    proof { assert(result.diagnostics@.take(k as int) =~= result.diagnostics@); }
    if lines.len() == 0 {
        return owned("No individual check failed.");
    }
    join(&lines, "\n")
}

/// The message a failure element carries: the failing checks' summaries joined by
/// semicolons, or that the vector did not satisfy its requirements.
pub open spec fn spec_failure_message(result: VectorResult) -> Seq<char> {
    let summaries = spec_failure_summaries(result.assertions@);
    if summaries.len() == 0 {
        "the vector did not satisfy its requirements"@
    } else {
        joined(summaries, "; "@)
    }
}

fn failure_message(result: &VectorResult) -> (res: String)
    ensures
        res@ == spec_failure_message(*result),
{
    let mut summaries: Vec<String> = Vec::new();
    let mut i: usize = 0;
    while i < result.assertions.len()
        invariant
            i <= result.assertions@.len(),
            texts(summaries@) == spec_failure_summaries(result.assertions@.take(i as int)),
        decreases result.assertions@.len() - i,
    {
        proof { assert(result.assertions@.take(i as int + 1).drop_last() =~= result.assertions@.take(i as int)); }
        let c = &result.assertions[i];
        if str_eq(c.status.as_str(), "failed") {
            let mut line = c.id.clone();
            push_str(&mut line, " [");
            push_str(&mut line, c.category.as_str());
            push_str(&mut line, "]: expected ");
            push_str(&mut line, c.expected.as_str());
            push_str(&mut line, ", observed ");
            push_str(&mut line, c.observed.as_str());
            let ghost before = summaries@;
            summaries.push(line);
            proof { assert(texts(summaries@) =~= texts(before).push(line@)); }
        }
        i = i + 1;
    }
    proof { assert(result.assertions@.take(i as int) =~= result.assertions@); }
    if summaries.len() == 0 {
        return owned("the vector did not satisfy its requirements");
    }
    join(&summaries, "; ")
}

/// The message an error element carries: the first finding's, or that the vector
/// could not be decided.
pub open spec fn spec_error_message(result: VectorResult) -> Seq<char> {
    if result.diagnostics@.len() > 0 {
        result.diagnostics@[0].message@
    } else {
        "the vector could not be decided"@
    }
}

/// The child element that says how a vector ended, or nothing for a pass.
pub open spec fn spec_outcome_element(result: VectorResult) -> Seq<char> {
    let status = result.status@;
    if status == "passed"@ {
        seq![]
    } else if status == "error"@ {
        "      <error message=\""@ + spec_xml(spec_sanitise(spec_error_message(result)))
            + "\" type=\"UNDECIDABLE\">"@ + spec_xml(spec_detail(result)) + "</error>\n"@
    } else if status == "skipped"@ {
        "      <skipped/>\n"@
    } else {
        "      <failure message=\""@ + spec_xml(spec_sanitise(spec_failure_message(result)))
            + "\" type=\""@ + spec_xml(spec_sanitise(status)) + "\">"@ + spec_xml(spec_detail(result))
            + "</failure>\n"@
    }
}

/// One `<testcase>`, with its failure, error or skip child.
pub open spec fn spec_one_case(result: VectorResult) -> Seq<char> {
    "    <testcase name=\""@ + spec_xml(spec_sanitise(result.vector_id@)) + "\" classname=\""@
        + spec_xml(spec_sanitise(result.category@)) + "\">\n"@ + spec_outcome_element(result)
        + "    </testcase>\n"@
}

fn outcome_element(result: &VectorResult) -> (res: String)
    ensures
        res@ == spec_outcome_element(*result),
{
    let status = result.status.as_str();
    let mut out = String::new();
    if str_eq(status, "passed") {
    } else if str_eq(status, "error") {
        let message = if result.diagnostics.len() > 0 {
            result.diagnostics[0].message.clone()
        } else {
            owned("the vector could not be decided")
        };
        push_str(&mut out, "      <error message=\"");
        push_str(&mut out, xml(sanitise(message.as_str()).as_str()).as_str());
        push_str(&mut out, "\" type=\"UNDECIDABLE\">");
        push_str(&mut out, xml(render_detail(result).as_str()).as_str());
        push_str(&mut out, "</error>\n");
    } else if str_eq(status, "skipped") {
        push_str(&mut out, "      <skipped/>\n");
    } else {
        push_str(&mut out, "      <failure message=\"");
        push_str(&mut out, xml(sanitise(failure_message(result).as_str()).as_str()).as_str());
        push_str(&mut out, "\" type=\"");
        push_str(&mut out, xml(sanitise(status).as_str()).as_str());
        push_str(&mut out, "\">");
        push_str(&mut out, xml(render_detail(result).as_str()).as_str());
        push_str(&mut out, "</failure>\n");
    }
    out
}

fn one_case(result: &VectorResult) -> (res: String)
    ensures
        res@ == spec_one_case(*result),
{
    let mut out = String::new();
    push_str(&mut out, "    <testcase name=\"");
    push_str(&mut out, xml(sanitise(result.vector_id.as_str()).as_str()).as_str());
    push_str(&mut out, "\" classname=\"");
    push_str(&mut out, xml(sanitise(result.category.as_str()).as_str()).as_str());
    push_str(&mut out, "\">\n");
    push_str(&mut out, outcome_element(result).as_str());
    push_str(&mut out, "    </testcase>\n");
    out
}

/// Every result's `<testcase>`, in order.
pub open spec fn spec_cases(results: Seq<VectorResult>) -> Seq<char>
    decreases results.len(),
{
    if results.len() == 0 {
        seq![]
    } else {
        spec_cases(results.drop_last()) + spec_one_case(results.last())
    }
}

/// The counts attributes an envelope carries.
pub open spec fn spec_counts(results: Seq<VectorResult>) -> Seq<char> {
    let (total, failed, errored, skipped) = spec_totals(results);
    "tests=\""@ + spec_decimal(total) + "\" failures=\""@ + spec_decimal(failed) + "\" errors=\""@
        + spec_decimal(errored) + "\" skipped=\""@ + spec_decimal(skipped) + "\""@
}

/// The whole `JUnit` document.
pub open spec fn spec_render(report: Report) -> Seq<char> {
    let suite = spec_sanitise(report.profile.id@) + "@"@ + spec_sanitise(report.profile.version@);
    "<?xml version=\"1.0\" encoding=\"UTF-8\"?>\n"@
        + "<testsuites name=\"estamora\" "@ + spec_counts(report.results@) + " time=\"0\">\n"@
        + "  <testsuite name=\""@ + spec_xml(suite) + "\" "@ + spec_counts(report.results@)
        + " timestamp=\""@ + spec_xml(spec_sanitise(report.generated_at@)) + "\" hostname=\""@
        + spec_xml(spec_sanitise(report.target.network@)) + "\">\n"@
        + spec_cases(report.results@) + "  </testsuite>\n"@ + "</testsuites>\n"@
}

fn counts(t: Totals) -> (res: String)
    ensures
        res@ == "tests=\""@ + spec_decimal(t.total as nat) + "\" failures=\""@ + spec_decimal(t.failed as nat)
            + "\" errors=\""@ + spec_decimal(t.errored as nat) + "\" skipped=\""@
            + spec_decimal(t.skipped as nat) + "\""@,
{
    let mut out = String::new();
    push_str(&mut out, "tests=\"");
    push_str(&mut out, decimal_text(t.total as u64).as_str());
    push_str(&mut out, "\" failures=\"");
    push_str(&mut out, decimal_text(t.failed as u64).as_str());
    push_str(&mut out, "\" errors=\"");
    push_str(&mut out, decimal_text(t.errored as u64).as_str());
    push_str(&mut out, "\" skipped=\"");
    push_str(&mut out, decimal_text(t.skipped as u64).as_str());
    push_str(&mut out, "\"");
    out
}

/// Renders a report as a `JUnit` `testsuites` document.
pub fn render(report: &Report) -> (res: String)
    requires
        report.results@.len() <= u32::MAX,
    ensures
        res@ == spec_render(*report),
{
    let t = totals(&report.results);
    let envelope = counts(t);
    let mut suite = sanitise(report.profile.id.as_str());
    push_str(&mut suite, "@");
    push_str(&mut suite, sanitise(report.profile.version.as_str()).as_str());
    let mut out = String::new();
    push_str(&mut out, "<?xml version=\"1.0\" encoding=\"UTF-8\"?>\n");
    push_str(&mut out, "<testsuites name=\"estamora\" ");
    push_str(&mut out, envelope.as_str());
    push_str(&mut out, " time=\"0\">\n");
    push_str(&mut out, "  <testsuite name=\"");
    push_str(&mut out, xml(suite.as_str()).as_str());
    push_str(&mut out, "\" ");
    push_str(&mut out, envelope.as_str());
    push_str(&mut out, " timestamp=\"");
    push_str(&mut out, xml(sanitise(report.generated_at.as_str()).as_str()).as_str());
    push_str(&mut out, "\" hostname=\"");
    push_str(&mut out, xml(sanitise(report.target.network.as_str()).as_str()).as_str());
    push_str(&mut out, "\">\n");
    let mut i: usize = 0;
    while i < report.results.len()
        invariant
            i <= report.results@.len(),
            out@ == old_prefix(*report, envelope@, suite@) + spec_cases(report.results@.take(i as int)),
        decreases report.results@.len() - i,
    {
        proof { assert(report.results@.take(i as int + 1).drop_last() =~= report.results@.take(i as int)); }
        push_str(&mut out, one_case(&report.results[i]).as_str());
        i = i + 1;
    }
    proof { assert(report.results@.take(i as int) =~= report.results@); }
    push_str(&mut out, "  </testsuite>\n");
    push_str(&mut out, "</testsuites>\n");
    out
}

/// The document up to its first `<testcase>`.
pub open spec fn old_prefix(report: Report, envelope: Seq<char>, suite: Seq<char>) -> Seq<char> {
    "<?xml version=\"1.0\" encoding=\"UTF-8\"?>\n"@ + "<testsuites name=\"estamora\" "@ + envelope
        + " time=\"0\">\n"@ + "  <testsuite name=\""@ + spec_xml(suite) + "\" "@ + envelope
        + " timestamp=\""@ + spec_xml(spec_sanitise(report.generated_at@)) + "\" hostname=\""@
        + spec_xml(spec_sanitise(report.target.network@)) + "\">\n"@
}

/// Whether a character could open or close markup or an attribute value.
pub open spec fn is_markup(c: char) -> bool {
    c == '<' || c == '>' || c == '"'
}

/// Escaped text cannot open an element, close one, or end an attribute value,
/// whatever it was before escaping.
pub proof fn law_escaped_text_has_no_markup(value: Seq<char>)
    ensures
        forall|i: int| 0 <= i < spec_xml(value).len() ==> !is_markup(#[trigger] spec_xml(value)[i]),
    decreases value.len(),
{
    reveal_strlit("&lt;");
    reveal_strlit("&gt;");
    reveal_strlit("&amp;");
    reveal_strlit("&apos;");
    reveal_strlit("&quot;");
    if value.len() > 0 {
        law_escaped_text_has_no_markup(value.drop_last());
        let head = spec_xml(value.drop_last());
        let tail = xml_char(value.last());
        assert forall|i: int| 0 <= i < spec_xml(value).len() implies !is_markup(#[trigger] spec_xml(value)[i]) by {
            if i >= head.len() {
                assert(spec_xml(value)[i] == tail[i - head.len()]);
            } else {
                assert(spec_xml(value)[i] == head[i]);
            }
        }
    }
}

/// A vector that could not be decided is reported as an `error` element of type
/// `UNDECIDABLE`, and nothing between its opening and closing tags can open
/// another element, so it is never reported as a failure.
pub proof fn law_an_undecidable_vector_is_an_error(result: VectorResult)
    requires
        result.status@ == "error"@,
    ensures
        spec_starts_with(spec_outcome_element(result), "      <error message=\""@),
        spec_ends_with(spec_outcome_element(result), "</error>\n"@),
        occurs_in("\" type=\"UNDECIDABLE\">"@, spec_outcome_element(result)),
        forall|i: int|
            22 <= i < spec_outcome_element(result).len() - 9 ==> #[trigger] spec_outcome_element(result)[i] != '<',
{
    reveal_strlit("passed");
    reveal_strlit("error");
    reveal_strlit("      <error message=\"");
    reveal_strlit("\" type=\"UNDECIDABLE\">");
    reveal_strlit("</error>\n");
    let open: Seq<char> = "      <error message=\""@;
    let message = spec_xml(spec_sanitise(spec_error_message(result)));
    let kind: Seq<char> = "\" type=\"UNDECIDABLE\">"@;
    let detail = spec_xml(spec_detail(result));
    let close: Seq<char> = "</error>\n"@;
    assert("error"@.len() != "passed"@.len());
    assert(result.status@ != "passed"@);
    let e = spec_outcome_element(result);
    assert(e == open + message + kind + detail + close);
    law_escaped_text_has_no_markup(spec_sanitise(spec_error_message(result)));
    law_escaped_text_has_no_markup(spec_detail(result));
    assert(e.take(open.len() as int) =~= open);
    assert(e.skip(e.len() - close.len()) =~= close);
    let at: int = open.len() as int + message.len() as int;
    assert(e.subrange(at, at + kind.len()) =~= kind);
    assert forall|i: int| 22 <= i < e.len() - 9 implies #[trigger] e[i] != '<' by {
        if i < at {
            assert(e[i] == message[i - open.len()]);
            assert(!is_markup(message[i - open.len()]));
        } else if i < at + kind.len() {
            assert(e[i] == kind[i - at]);
        } else {
            assert(e[i] == detail[i - at - kind.len()]);
            assert(!is_markup(detail[i - at - kind.len()]));
        }
    }
}

/// Whether a status is one of the four a vector result is reported with.
pub open spec fn is_known_status(status: Seq<char>) -> bool {
    status == "passed"@ || status == "failed"@ || status == "error"@ || status == "skipped"@
}

/// How many of the results' test cases carry a child element that opens with `open`.
pub open spec fn count_cases_opening(results: Seq<VectorResult>, open: Seq<char>) -> nat
    decreases results.len(),
{
    if results.len() == 0 {
        0
    } else {
        count_cases_opening(results.drop_last(), open)
            + if spec_starts_with(spec_outcome_element(results.last()), open) { 1nat } else { 0nat }
    }
}

proof fn lemma_outcome_opening(result: VectorResult)
    requires
        is_known_status(result.status@),
    ensures
        spec_starts_with(spec_outcome_element(result), "      <failure "@) == (result.status@ == "failed"@),
        spec_starts_with(spec_outcome_element(result), "      <error "@) == (result.status@ == "error"@),
        spec_starts_with(spec_outcome_element(result), "      <skipped/>"@) == (result.status@ == "skipped"@),
{
    reveal_strlit("passed");
    reveal_strlit("failed");
    reveal_strlit("error");
    reveal_strlit("skipped");
    reveal_strlit("      <failure ");
    reveal_strlit("      <error ");
    reveal_strlit("      <skipped/>");
    reveal_strlit("      <failure message=\"");
    reveal_strlit("      <error message=\"");
    reveal_strlit("      <skipped/>\n");
    let status = result.status@;
    let e = spec_outcome_element(result);
    let failure: Seq<char> = "      <failure "@;
    let error: Seq<char> = "      <error "@;
    let skipped: Seq<char> = "      <skipped/>"@;
    assert(failure[7] == 'f' && error[7] == 'e' && skipped[7] == 's');
    assert("passed"@[0] == 'p' && "failed"@[0] == 'f' && "skipped"@[0] == 's' && "error"@.len() == 5);
    if status == "passed"@ {
        assert(e.len() == 0);
    } else if status == "error"@ {
        let open: Seq<char> = "      <error message=\""@;
        assert(status != "passed"@);
        assert(e[7] == open[7]);
        assert(e.take(error.len() as int) =~= error) by {
            assert forall|i: int| 0 <= i < error.len() implies e[i] == error[i] by {
                assert(e[i] == open[i]);
            }
        }
        assert(e.take(failure.len() as int)[7] != failure[7]);
        assert(e.take(skipped.len() as int)[7] != skipped[7]);
    } else if status == "skipped"@ {
        let open: Seq<char> = "      <skipped/>\n"@;
        assert(status != "passed"@ && status != "error"@);
        assert(e == open);
        assert(e.take(skipped.len() as int) =~= skipped);
        assert(e.take(failure.len() as int)[7] != failure[7]);
        assert(e.take(error.len() as int)[7] != error[7]);
    } else {
        let open: Seq<char> = "      <failure message=\""@;
        assert(status != "passed"@ && status != "error"@ && status != "skipped"@);
        assert(e.take(failure.len() as int) =~= failure) by {
            assert forall|i: int| 0 <= i < failure.len() implies e[i] == failure[i] by {
                assert(e[i] == open[i]);
            }
        }
        assert(e[7] == open[7]);
        assert(e.take(error.len() as int)[7] != error[7]);
        assert(e.take(skipped.len() as int)[7] != skipped[7]);
    }
}

/// The counts on the envelope are what its test cases carry: one case per result, as
/// many `<failure>` children as failures, `<error>` children as errors and `<skipped/>`
/// children as skipped results, whenever every result has one of the four statuses a
/// result is reported with.
pub proof fn law_the_envelope_counts_what_its_cases_carry(results: Seq<VectorResult>)
    requires
        forall|i: int| 0 <= i < results.len() ==> is_known_status(#[trigger] results[i].status@),
    ensures
        spec_totals(results).0 == results.len(),
        spec_totals(results).1 == count_cases_opening(results, "      <failure "@),
        spec_totals(results).2 == count_cases_opening(results, "      <error "@),
        spec_totals(results).3 == count_cases_opening(results, "      <skipped/>"@),
    decreases results.len(),
{
    if results.len() > 0 {
        let prefix = results.drop_last();
        assert forall|i: int| 0 <= i < prefix.len() implies is_known_status(#[trigger] prefix[i].status@) by {
            assert(prefix[i] == results[i]);
        }
        law_the_envelope_counts_what_its_cases_carry(prefix);
        reveal_strlit("passed");
        reveal_strlit("failed");
        reveal_strlit("error");
        reveal_strlit("skipped");
        assert("passed"@[0] != "failed"@[0] && "error"@.len() != "passed"@.len());
        assert("skipped"@[0] != "passed"@[0] && "skipped"@[0] != "failed"@[0] && "skipped"@.len() != "error"@.len());
        assert(results.last() == results[results.len() - 1]);
        lemma_outcome_opening(results.last());
    }
}

} // verus!

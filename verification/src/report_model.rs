//! The conformance report, as the specification's report schema defines it.
//!
//! Results are per assertion and per dimension, and the final status is one of six
//! explicit values. The summary counts each assertion identifier once: interface
//! checks are attached to every vector result, and counting raw occurrences would
//! report a larger body of evidence than exists. An identifier that failed in any
//! vector is counted as failed, however many other vectors it held in.
use vstd::prelude::*;

use crate::taxonomy::ConformanceStatus;
use crate::identifier::{identifier, spec_identifier};
use crate::text::{chars_of, owned, push_char, push_str, str_eq, text_from_chars, starts_with};
use crate::vector_model::{AssertionCategory, category_of, spec_category_of};

verus! {

/// The schema a report declares itself written against.
pub const REPORT_SCHEMA: &'static str = "https://estamora.dev/schema/report.schema.json";

/// The longest vector identifier the schema permits.
pub const VECTOR_ID_LIMIT: usize = 96;

/// The shortest vector identifier the schema permits.
pub const VECTOR_ID_MINIMUM: usize = 4;

/// The longest rendered expectation or observation the schema permits.
pub const VALUE_LIMIT: usize = 2000;

/// The longest explanation the schema permits.
pub const DETAIL_LIMIT: usize = 4000;

/// A complete conformance report.
#[derive(Debug, Clone, PartialEq)]
pub struct Report {
    /// The schema this document is written against.
    pub schema: Option<String>,
    /// The specification format version the report is written against.
    pub estamora_spec_version: String,
    /// Which implementation produced it, and at which version.
    pub runner: RunnerIdentity,
    /// When the report was produced, as an RFC 3339 date-time.
    pub generated_at: String,
    /// What was measured.
    pub target: Target,
    /// Which requirement set the result is attributed to.
    pub profile: ProfileIdentity,
    /// The corpus that was executed.
    pub vectors: CorpusIdentity,
    /// Execution configuration that could change the result, as name and JSON text.
    pub configuration: Vec<(String, String)>,
    /// One entry per executed vector.
    pub results: Vec<VectorResult>,
    /// Per-dimension tallies.
    pub summary: Summary,
    /// The run's verdict.
    pub status: ConformanceStatus,
    /// The process exit code the runner used.
    pub exit_code: i32,
}

/// The producer's identity.
#[derive(Debug, Clone, PartialEq)]
pub struct RunnerIdentity {
    /// The tool's name.
    pub name: String,
    /// Its version.
    pub version: String,
}

/// What was measured.
#[derive(Debug, Clone, PartialEq)]
pub struct Target {
    /// The contract identifier.
    pub contract: String,
    /// The network, e.g. `local`, `testnet`, `mainnet`.
    pub network: String,
    /// The contract's WebAssembly hash, where it could be resolved.
    pub wasm_hash: Option<String>,
    /// Contract-supplied metadata, as name and JSON text; untrusted.
    pub metadata: Vec<(String, String)>,
}

/// The profile a result is attributed to.
#[derive(Debug, Clone, PartialEq)]
pub struct ProfileIdentity {
    /// The profile's identifier.
    pub id: String,
    /// Its revision.
    pub version: String,
    /// A content digest of the bundle, as `sha256:<hex>`.
    pub digest: String,
}

/// The corpus a result was produced from.
#[derive(Debug, Clone, PartialEq)]
pub struct CorpusIdentity {
    /// A content digest of the executed vectors, as `sha256:<hex>`.
    pub digest: String,
    /// How many vectors were executed.
    pub count: u32,
}

/// A tally for one dimension.
#[derive(Debug, Clone, Copy, PartialEq, Eq, Structural)]
pub struct AssertionSummary {
    /// Checks that held.
    pub passed: u32,
    /// Checks that did not hold.
    pub failed: u32,
    /// Checks reported in total.
    pub total: u32,
    /// Violated warnings, recorded and excluded from the verdict.
    pub warnings: u32,
}

/// Per-dimension tallies.
#[derive(Debug, Clone, Copy, PartialEq, Eq, Structural)]
pub struct Summary {
    /// Interface compatibility checks.
    pub interface: AssertionSummary,
    /// Authorization checks.
    pub authorization: AssertionSummary,
    /// Event checks.
    pub events: AssertionSummary,
    /// Behavioural checks.
    pub behavior: AssertionSummary,
    /// State checks.
    pub state: AssertionSummary,
    /// Invariant checks.
    pub invariants: AssertionSummary,
    /// Failure checks.
    pub failure: AssertionSummary,
}

/// The result of one executed vector.
#[derive(Debug, Clone, PartialEq)]
pub struct VectorResult {
    /// The vector's identifier.
    pub vector_id: String,
    /// The class of property the vector probes.
    pub category: String,
    /// Whether the vector passed, failed, errored or was skipped.
    pub status: String,
    /// Every check that was reported.
    pub assertions: Vec<ReportedAssertion>,
    /// Findings that are not checks.
    pub diagnostics: Vec<ReportedDiagnostic>,
}

/// One reported check.
#[derive(Debug, Clone, PartialEq)]
pub struct ReportedAssertion {
    /// A stable identifier, normalised to the schema's identifier grammar.
    pub id: String,
    /// Which conformance dimension the check belongs to.
    pub category: String,
    /// Whether the check held.
    pub status: String,
    /// What the requirement asked for.
    pub expected: String,
    /// What was observed.
    pub observed: String,
    /// Anything further a reader needs.
    pub detail: Option<String>,
}

/// A finding that is not a check.
#[derive(Debug, Clone, PartialEq)]
pub struct ReportedDiagnostic {
    /// A stable short code.
    pub code: String,
    /// What was found.
    pub message: String,
}

/// An empty tally.
pub open spec fn zero_tally() -> AssertionSummary {
    AssertionSummary { passed: 0, failed: 0, total: 0, warnings: 0 }
}

impl AssertionSummary {
    /// An empty tally.
    pub fn zero() -> (res: Self)
        ensures
            res == zero_tally(),
    {
        AssertionSummary { passed: 0, failed: 0, total: 0, warnings: 0 }
    }
}

impl Summary {
    /// Every tally empty.
    pub open spec fn spec_default() -> Summary {
        Summary {
            interface: zero_tally(),
            authorization: zero_tally(),
            events: zero_tally(),
            behavior: zero_tally(),
            state: zero_tally(),
            invariants: zero_tally(),
            failure: zero_tally(),
        }
    }

    /// Every tally empty.
    pub fn new() -> (res: Self)
        ensures
            res == Self::spec_default(),
    {
        Summary {
            interface: AssertionSummary::zero(),
            authorization: AssertionSummary::zero(),
            events: AssertionSummary::zero(),
            behavior: AssertionSummary::zero(),
            state: AssertionSummary::zero(),
            invariants: AssertionSummary::zero(),
            failure: AssertionSummary::zero(),
        }
    }

    /// The tally belonging to a dimension.
    pub open spec fn tally(self, category: AssertionCategory) -> AssertionSummary {
        match category {
            AssertionCategory::Interface => self.interface,
            AssertionCategory::Authorization => self.authorization,
            AssertionCategory::Event => self.events,
            AssertionCategory::Behavior => self.behavior,
            AssertionCategory::State => self.state,
            AssertionCategory::Invariant => self.invariants,
            AssertionCategory::Failure => self.failure,
        }
    }

    /// The tally belonging to a dimension.
    pub fn dimension(&self, category: AssertionCategory) -> (res: AssertionSummary)
        ensures
            res == self.tally(category),
    {
        match category {
            AssertionCategory::Interface => self.interface,
            AssertionCategory::Authorization => self.authorization,
            AssertionCategory::Event => self.events,
            AssertionCategory::Behavior => self.behavior,
            AssertionCategory::State => self.state,
            AssertionCategory::Invariant => self.invariants,
            AssertionCategory::Failure => self.failure,
        }
    }

    /// Every dimension's tally, in the order the schema lists them.
    pub fn all(&self) -> (res: Vec<(AssertionCategory, AssertionSummary)>)
        ensures
            res@.len() == 7,
            forall|i: int| 0 <= i < 7 ==> (#[trigger] res@[i]).0 == AssertionCategory::spec_all()[i]
                && res@[i].1 == self.tally(AssertionCategory::spec_all()[i]),
    {
        vec![
            (AssertionCategory::Interface, self.interface),
            (AssertionCategory::Authorization, self.authorization),
            (AssertionCategory::Event, self.events),
            (AssertionCategory::Behavior, self.behavior),
            (AssertionCategory::State, self.state),
            (AssertionCategory::Invariant, self.invariants),
            (AssertionCategory::Failure, self.failure),
        ]
    }

    /// The seven tallies' totals, added without wrapping: a sum past `u32::MAX` is
    /// reported as `u32::MAX`.
    pub open spec fn spec_total(self) -> u32 {
        saturating_sum(Self::tallies(self).map_values(|t: AssertionSummary| t.total))
    }

    /// The seven tallies' failures, added without wrapping.
    pub open spec fn spec_failed(self) -> u32 {
        saturating_sum(Self::tallies(self).map_values(|t: AssertionSummary| t.failed))
    }

    /// The seven tallies, in the schema's order.
    pub open spec fn tallies(self) -> Seq<AssertionSummary> {
        seq![self.interface, self.authorization, self.events, self.behavior, self.state,
            self.invariants, self.failure]
    }

    /// Checks that were reported, summed over every dimension.
    pub fn total(&self) -> (res: u32)
        ensures
            res == self.spec_total(),
    {
        let parts = vec![self.interface.total, self.authorization.total, self.events.total,
            self.behavior.total, self.state.total, self.invariants.total, self.failure.total];
        proof { assert(parts@ =~= Self::tallies(*self).map_values(|t: AssertionSummary| t.total)); }
        sum_saturating(&parts)
    }

    /// Checks that did not hold, summed over every dimension.
    pub fn failed(&self) -> (res: u32)
        ensures
            res == self.spec_failed(),
    {
        let parts = vec![self.interface.failed, self.authorization.failed, self.events.failed,
            self.behavior.failed, self.state.failed, self.invariants.failed, self.failure.failed];
        proof { assert(parts@ =~= Self::tallies(*self).map_values(|t: AssertionSummary| t.failed)); }
        sum_saturating(&parts)
    }
}

/// `a + b`, or `u32::MAX` when the sum does not fit.
pub open spec fn sat_add(a: u32, b: u32) -> u32 {
    if a + b > u32::MAX { u32::MAX } else { (a + b) as u32 }
}

/// The left-to-right saturating sum of a list.
pub open spec fn saturating_sum(values: Seq<u32>) -> u32
    decreases values.len(),
{
    if values.len() == 0 { 0 } else { sat_add(saturating_sum(values.drop_last()), values.last()) }
}

fn sum_saturating(values: &Vec<u32>) -> (res: u32)
    ensures
        res == saturating_sum(values@),
{
    let mut acc: u32 = 0;
    let mut i: usize = 0;
    while i < values.len()
        invariant
            i <= values@.len(),
            acc == saturating_sum(values@.take(i as int)),
        decreases values@.len() - i,
    {
        proof { assert(values@.take(i as int + 1).drop_last() =~= values@.take(i as int)); }
        acc = acc.saturating_add(values[i]);
        i = i + 1;
    }
    proof { assert(values@.take(i as int) =~= values@); }
    acc
}

/// A text cut to at most `limit` characters, marked with `…` when it was cut.
pub open spec fn spec_bounded(text: Seq<char>, limit: nat) -> Seq<char> {
    if text.len() <= limit {
        text
    } else {
        let keep: nat = if limit >= 1 { (limit - 1) as nat } else { 0 };
        text.take(keep as int).push('…')
    }
}

/// Truncates a string to the schema's maximum, marking the truncation.
pub fn bounded(text: &str, limit: usize) -> (res: String)
    ensures
        res@ == spec_bounded(text@, limit as nat),
{
    let mut chars = chars_of(text);
    if chars.len() <= limit {
        return text_from_chars(chars.as_slice());
    }
    let keep = limit.saturating_sub(1);
    chars.truncate(keep);
    let mut cut = text_from_chars(chars.as_slice());
    push_char(&mut cut, '…');
    cut
}

/// Whether a vector identifier is one the schema accepts: four to ninety-six
/// characters.
pub fn vector_id_is_acceptable(id: &str) -> (res: bool)
    ensures
        res == (VECTOR_ID_MINIMUM <= id@.len() <= VECTOR_ID_LIMIT),
{
    let count = chars_of(id).len();
    VECTOR_ID_MINIMUM <= count && count <= VECTOR_ID_LIMIT
}

/// Every reported check, in the order the results list them.
pub open spec fn all_checks(results: Seq<VectorResult>) -> Seq<ReportedAssertion>
    decreases results.len(),
{
    if results.len() == 0 {
        seq![]
    } else {
        all_checks(results.drop_last()) + results.last().assertions@
    }
}

/// Whether `checks[i]` is the first check carrying its identifier.
pub open spec fn is_first_occurrence(checks: Seq<ReportedAssertion>, i: int) -> bool {
    &&& 0 <= i < checks.len()
    &&& forall|j: int| 0 <= j < i ==> (#[trigger] checks[j]).id@ != checks[i].id@
}

/// Whether some check carrying `id` failed.
pub open spec fn failed_anywhere(checks: Seq<ReportedAssertion>, id: Seq<char>) -> bool {
    exists|j: int| 0 <= j < checks.len() && (#[trigger] checks[j]).id@ == id
        && checks[j].status@ == "failed"@
}

/// The category named by the last check carrying `id`.
pub open spec fn final_category(checks: Seq<ReportedAssertion>, id: Seq<char>) -> Seq<char>
    decreases checks.len(),
{
    if checks.len() == 0 {
        seq![]
    } else if checks.last().id@ == id {
        checks.last().category@
    } else {
        final_category(checks.drop_last(), id)
    }
}

/// Whether `checks[i]` is a distinct identifier counted in dimension `c`.
pub open spec fn counts_toward(checks: Seq<ReportedAssertion>, i: int, c: AssertionCategory) -> bool {
    is_first_occurrence(checks, i) && spec_category_of(final_category(checks, checks[i].id@)) == Some(c)
}

/// How many of the first `n` checks are distinct identifiers counted in `c`, and how
/// many of those failed somewhere.
pub open spec fn distinct_counts(checks: Seq<ReportedAssertion>, c: AssertionCategory, n: int) -> (nat, nat)
    decreases n,
{
    if n <= 0 {
        (0, 0)
    } else {
        let (total, failed) = distinct_counts(checks, c, n - 1);
        if counts_toward(checks, n - 1, c) {
            (total + 1, if failed_anywhere(checks, checks[n - 1].id@) { failed + 1 } else { failed })
        } else {
            (total, failed)
        }
    }
}

/// Whether a finding records a violated warning-severity invariant.
pub open spec fn is_invariant_warning(finding: ReportedDiagnostic) -> bool {
    crate::text::spec_starts_with(finding.code@, "invariant-warning"@)
}

/// How many of a result's findings record violated warnings.
pub open spec fn warnings_of(result: VectorResult) -> nat {
    result.diagnostics@.filter(|d: ReportedDiagnostic| is_invariant_warning(d)).len()
}

/// A count, or `u32::MAX` when it does not fit.
pub open spec fn capped(n: nat) -> u32 {
    if n > u32::MAX { u32::MAX } else { n as u32 }
}

/// The violated warnings over every result, added without wrapping.
pub open spec fn warning_total(results: Seq<VectorResult>) -> u32
    decreases results.len(),
{
    if results.len() == 0 {
        0
    } else {
        sat_add(warning_total(results.drop_last()), capped(warnings_of(results.last())))
    }
}

/// The tally of dimension `c` over `results`: each identifier counted once, as
/// failed when it failed in any result and in the dimension its last occurrence
/// names; violated warnings are counted under invariants.
pub open spec fn spec_tally(results: Seq<VectorResult>, c: AssertionCategory) -> AssertionSummary {
    let checks = all_checks(results);
    let (total, failed) = distinct_counts(checks, c, checks.len() as int);
    AssertionSummary {
        passed: (total - failed) as u32,
        failed: failed as u32,
        total: total as u32,
        warnings: if c is Invariant { warning_total(results) } else { 0 },
    }
}

proof fn lemma_distinct_counts_bounded(checks: Seq<ReportedAssertion>, c: AssertionCategory, n: int)
    ensures
        distinct_counts(checks, c, n).1 <= distinct_counts(checks, c, n).0,
        n >= 0 ==> distinct_counts(checks, c, n).0 <= n,
    decreases n,
{
    if n > 0 {
        lemma_distinct_counts_bounded(checks, c, n - 1);
    }
}

proof fn lemma_all_checks_push(results: Seq<VectorResult>, r: int)
    requires
        0 <= r < results.len(),
    ensures
        all_checks(results.take(r + 1)) == all_checks(results.take(r)) + results[r].assertions@,
{
    assert(results.take(r + 1).drop_last() =~= results.take(r));
}

proof fn lemma_final_category_extends(checks: Seq<ReportedAssertion>, id: Seq<char>, k: int)
    requires
        0 <= k < checks.len(),
    ensures
        final_category(checks.take(k + 1), id)
            == if checks[k].id@ == id { checks[k].category@ } else { final_category(checks.take(k), id) },
{
    assert(checks.take(k + 1).drop_last() =~= checks.take(k));
}

/// Some check carrying `id` is the first to carry it.
proof fn lemma_first_occurrence_exists(checks: Seq<ReportedAssertion>, j: int)
    requires
        0 <= j < checks.len(),
    ensures
        exists|i: int| #[trigger] is_first_occurrence(checks, i) && checks[i].id@ == checks[j].id@ && i <= j,
    decreases j,
{
    if is_first_occurrence(checks, j) {
        assert(is_first_occurrence(checks, j) && checks[j].id@ == checks[j].id@ && j <= j);
    } else {
        let k = choose|k: int| 0 <= k < j && (#[trigger] checks[k]).id@ == checks[j].id@;
        lemma_first_occurrence_exists(checks, k);
    }
}

/// Once a counted identifier that failed somewhere has been reached, the failures
/// counted never fall back to zero.
proof fn lemma_failure_stays_counted(checks: Seq<ReportedAssertion>, c: AssertionCategory, i: int, n: int)
    requires
        counts_toward(checks, i, c),
        failed_anywhere(checks, checks[i].id@),
        i < n,
    ensures
        distinct_counts(checks, c, n).1 >= 1,
    decreases n,
{
    if n - 1 > i {
        lemma_failure_stays_counted(checks, c, i, n - 1);
    }
}

/// A check that failed anywhere is summarised as failed: when any result records a
/// failed check whose identifier the run files under dimension `c`, that dimension's
/// tally counts a failure, however many other results passed the same check.
pub proof fn law_a_failure_anywhere_is_summarised_as_failed(results: Seq<VectorResult>, c: AssertionCategory, j: int)
    requires
        all_checks(results).len() <= u32::MAX,
        0 <= j < all_checks(results).len(),
        all_checks(results)[j].status@ == "failed"@,
        spec_category_of(final_category(all_checks(results), all_checks(results)[j].id@)) == Some(c),
    ensures
        spec_tally(results, c).failed >= 1,
        spec_tally(results, c).failed <= spec_tally(results, c).total,
{
    let checks = all_checks(results);
    lemma_first_occurrence_exists(checks, j);
    let i = choose|i: int| #[trigger] is_first_occurrence(checks, i) && checks[i].id@ == checks[j].id@ && i <= j;
    assert(failed_anywhere(checks, checks[i].id@));
    assert(counts_toward(checks, i, c));
    lemma_failure_stays_counted(checks, c, i, checks.len() as int);
    lemma_distinct_counts_bounded(checks, c, checks.len() as int);
}

/// When every check carries one identifier, only the first is counted.
proof fn lemma_one_identifier_counted_once(checks: Seq<ReportedAssertion>, c: AssertionCategory, n: int)
    requires
        1 <= n <= checks.len(),
        forall|k: int| 0 <= k < checks.len() ==> (#[trigger] checks[k]).id@ == checks[0].id@,
        spec_category_of(final_category(checks, checks[0].id@)) == Some(c),
    ensures
        distinct_counts(checks, c, n).0 == 1,
    decreases n,
{
    if n > 1 {
        lemma_one_identifier_counted_once(checks, c, n - 1);
        assert(checks[0].id@ == checks[n - 1].id@);
        assert(!is_first_occurrence(checks, n - 1)) by {
            assert(0 < n - 1 && checks[0].id@ == checks[n - 1].id@);
        }
        assert(!counts_toward(checks, n - 1, c));
    } else {
        assert(is_first_occurrence(checks, 0));
        assert(counts_toward(checks, 0, c));
        assert(distinct_counts(checks, c, 0) == (0nat, 0nat));
    }
}

/// A check repeated across results is counted once: when every check a run records
/// carries one identifier, filed under dimension `c`, that dimension's tally holds one
/// check, however many results repeated it.
pub proof fn law_a_repeated_check_is_counted_once(results: Seq<VectorResult>, c: AssertionCategory)
    requires
        1 <= all_checks(results).len() <= u32::MAX,
        forall|k: int| 0 <= k < all_checks(results).len() ==> (#[trigger] all_checks(results)[k]).id@ == all_checks(results)[0].id@,
        spec_category_of(final_category(all_checks(results), all_checks(results)[0].id@)) == Some(c),
    ensures
        spec_tally(results, c).total == 1,
{
    let checks = all_checks(results);
    lemma_one_identifier_counted_once(checks, c, checks.len() as int);
}

/// The tally of dimension `c` over the first `n` checks, warnings aside.
pub open spec fn expected_tally(checks: Seq<ReportedAssertion>, c: AssertionCategory, n: int) -> AssertionSummary {
    let (total, failed) = distinct_counts(checks, c, n);
    AssertionSummary { passed: (total - failed) as u32, failed: failed as u32, total: total as u32, warnings: 0 }
}

impl Summary {
    /// The tallies of every dimension over `results`.
    pub open spec fn spec_of(results: Seq<VectorResult>) -> Summary {
        Summary {
            interface: spec_tally(results, AssertionCategory::Interface),
            authorization: spec_tally(results, AssertionCategory::Authorization),
            events: spec_tally(results, AssertionCategory::Event),
            behavior: spec_tally(results, AssertionCategory::Behavior),
            state: spec_tally(results, AssertionCategory::State),
            invariants: spec_tally(results, AssertionCategory::Invariant),
            failure: spec_tally(results, AssertionCategory::Failure),
        }
    }

    /// Counts one distinct identifier in dimension `c`.
    fn count(&mut self, c: AssertionCategory, failed: bool)
        requires
            old(self).tally(c).total < u32::MAX,
            old(self).tally(c).failed < u32::MAX,
            old(self).tally(c).passed < u32::MAX,
        ensures
            forall|d: AssertionCategory| d != c ==> #[trigger] final(self).tally(d) == old(self).tally(d),
            final(self).tally(c) == (AssertionSummary {
                total: (old(self).tally(c).total + 1) as u32,
                failed: if failed { (old(self).tally(c).failed + 1) as u32 } else { old(self).tally(c).failed },
                passed: if failed { old(self).tally(c).passed } else { (old(self).tally(c).passed + 1) as u32 },
                warnings: old(self).tally(c).warnings,
            }),
    {
        let t = self.dimension(c);
        let next = AssertionSummary {
            total: t.total + 1,
            failed: if failed { t.failed + 1 } else { t.failed },
            passed: if failed { t.passed } else { t.passed + 1 },
            warnings: t.warnings,
        };
        match c {
            AssertionCategory::Interface => self.interface = next,
            AssertionCategory::Authorization => self.authorization = next,
            AssertionCategory::Event => self.events = next,
            AssertionCategory::Behavior => self.behavior = next,
            AssertionCategory::State => self.state = next,
            AssertionCategory::Invariant => self.invariants = next,
            AssertionCategory::Failure => self.failure = next,
        }
    }

    /// Tallies every result, counting each assertion identifier once, as failed when
    /// it failed anywhere.
    pub fn of(results: &Vec<VectorResult>) -> (res: Self)
        requires
            all_checks(results@).len() <= u32::MAX,
        ensures
            res == Self::spec_of(results@),
    {
        // Every check, in order.
        let mut checks: Vec<&ReportedAssertion> = Vec::new();
        let mut r: usize = 0;
        while r < results.len()
            invariant
                r <= results@.len(),
                checks@.len() == all_checks(results@.take(r as int)).len(),
                forall|k: int| 0 <= k < checks@.len() ==> *(#[trigger] checks@[k]) == all_checks(results@.take(r as int))[k],
            decreases results@.len() - r,
        {
            proof { lemma_all_checks_push(results@, r as int); }
            let assertions = &results[r].assertions;
            let ghost base = checks@.len();
            let mut a: usize = 0;
            while a < assertions.len()
                invariant
                    r < results@.len(),
                    *assertions == results@[r as int].assertions,
                    a <= assertions@.len(),
                    base == all_checks(results@.take(r as int)).len(),
                    checks@.len() == base + a,
                    forall|k: int| 0 <= k < base ==> *(#[trigger] checks@[k]) == all_checks(results@.take(r as int))[k],
                    forall|k: int| base <= k < base + a ==> *(#[trigger] checks@[k]) == assertions@[k - base],
                decreases assertions@.len() - a,
            {
                checks.push(&assertions[a]);
                a = a + 1;
            }
            proof {
                assert forall|k: int| 0 <= k < checks@.len() implies *(#[trigger] checks@[k]) == all_checks(results@.take(r as int + 1))[k] by {
                    if k < base {
                    } else {
                    }
                }
            }
            r = r + 1;
        }
        proof { assert(results@.take(results@.len() as int) =~= results@); }
        let ghost all = all_checks(results@);

        let mut summary = Summary::new();
        let mut i: usize = 0;
        while i < checks.len()
            invariant
                i <= checks@.len(),
                checks@.len() == all.len(),
                all.len() <= u32::MAX,
                forall|k: int| 0 <= k < checks@.len() ==> *(#[trigger] checks@[k]) == all[k],
                forall|c: AssertionCategory| #[trigger] summary.tally(c) == expected_tally(all, c, i as int),
            decreases checks@.len() - i,
        {
            let id = &checks[i].id;
            // Whether an earlier check carries the same identifier.
            let mut seen = false;
            let mut j: usize = 0;
            while j < i
                invariant
                    j <= i < checks@.len(),
                    *id == checks@[i as int].id,
                    forall|k: int| 0 <= k < checks@.len() ==> *(#[trigger] checks@[k]) == all[k],
                    !seen ==> forall|k: int| 0 <= k < j ==> (#[trigger] all[k]).id@ != all[i as int].id@,
                    seen ==> exists|k: int| 0 <= k < i && (#[trigger] all[k]).id@ == all[i as int].id@,
                decreases i - j,
            {
                if !seen && checks[j].id == *id {
                    seen = true;
                }
                j = j + 1;
            }
            proof {
                assert(is_first_occurrence(all, i as int) == !seen);
            }
            if seen {
                proof {
                    assert forall|d: AssertionCategory| #[trigger] summary.tally(d) == expected_tally(all, d, i as int + 1) by {
                        assert(!counts_toward(all, i as int, d));
                    }
                }
            } else {
                // Whether it failed anywhere, and the category its last occurrence names.
                let mut failed = false;
                let mut category: &String = &checks[i].category;
                let mut k: usize = 0;
                while k < checks.len()
                    invariant
                        i < checks@.len(),
                        checks@.len() == all.len(),
                        is_first_occurrence(all, i as int),
                        k <= checks@.len(),
                        *id == checks@[i as int].id,
                        forall|m: int| 0 <= m < checks@.len() ==> *(#[trigger] checks@[m]) == all[m],
                        failed == exists|m: int| 0 <= m < k && (#[trigger] all[m]).id@ == all[i as int].id@
                            && all[m].status@ == "failed"@,
                        k > i ==> category@ == final_category(all.take(k as int), all[i as int].id@),
                        k <= i ==> category@ == all[i as int].category@,
                    decreases checks@.len() - k,
                {
                    proof { lemma_final_category_extends(all, all[i as int].id@, k as int); }
                    if checks[k].id == *id {
                        if str_eq(checks[k].status.as_str(), "failed") {
                            failed = true;
                        }
                        category = &checks[k].category;
                    }
                    proof {
                        if k < i {
                            assert(all[k as int].id@ != all[i as int].id@);
                        }
                    }
                    k = k + 1;
                }
                proof {
                    assert(all.take(all.len() as int) =~= all);
                    assert(failed == failed_anywhere(all, all[i as int].id@));
                }
                proof {
                    assert(category@ == final_category(all, all[i as int].id@));
                    assert(is_first_occurrence(all, i as int));
                }
                let ghost before = summary;
                match category_of(category.as_str()) {
                    Some(c) => {
                        proof {
                            lemma_distinct_counts_bounded(all, c, i as int);
                            assert(before.tally(c) == expected_tally(all, c, i as int));
                        }
                        summary.count(c, failed);
                        proof {
                            assert forall|d: AssertionCategory| #[trigger] summary.tally(d) == expected_tally(all, d, i as int + 1) by {
                                assert(counts_toward(all, i as int, d) == (d == c));
                                lemma_distinct_counts_bounded(all, d, i as int);
                            }
                        }
                    },
                    None => {
                        proof {
                            assert forall|d: AssertionCategory| #[trigger] summary.tally(d) == expected_tally(all, d, i as int + 1) by {
                                assert(!counts_toward(all, i as int, d));
                            }
                        }
                    },
                }
            }
            i = i + 1;
        }

        let ghost counted = summary;
        proof {
            assert(i == all.len());
            assert forall|c: AssertionCategory| #[trigger] counted.tally(c) == expected_tally(all, c, all.len() as int) by {}
        }
        // Violated warnings.
        let mut warnings: u32 = 0;
        let mut r: usize = 0;
        while r < results.len()
            invariant
                r <= results@.len(),
                warnings == warning_total(results@.take(r as int)),
            decreases results@.len() - r,
        {
            proof { assert(results@.take(r as int + 1).drop_last() =~= results@.take(r as int)); }
            let diagnostics = &results[r].diagnostics;
            let mut count: usize = 0;
            let mut d: usize = 0;
            while d < diagnostics.len()
                invariant
                    r < results@.len(),
                    *diagnostics == results@[r as int].diagnostics,
                    d <= diagnostics@.len(),
                    count == diagnostics@.take(d as int).filter(|x: ReportedDiagnostic| is_invariant_warning(x)).len(),
                    count <= d,
                decreases diagnostics@.len() - d,
            {
                proof {
                    assert(diagnostics@.take(d as int + 1).drop_last() =~= diagnostics@.take(d as int));
                    reveal_with_fuel(Seq::<_>::filter, 1);
                }
                if starts_with(diagnostics[d].code.as_str(), "invariant-warning") {
                    count = count + 1;
                }
                d = d + 1;
            }
            proof { assert(diagnostics@.take(d as int) =~= diagnostics@); }
            let capped_count: u32 = if count > 4294967295usize { 4294967295u32 } else { count as u32 };
            warnings = warnings.saturating_add(capped_count);
            r = r + 1;
        }
        proof { assert(results@.take(results@.len() as int) =~= results@); }
        summary.invariants.warnings = warnings;
        proof {
            assert(all == all_checks(results@));
            assert forall|c: AssertionCategory| #[trigger] summary.tally(c) == spec_tally(results@, c) by {
                assert(counted.tally(c) == expected_tally(all, c, all.len() as int));
                if c is Invariant {
                    assert(summary.tally(c).warnings == warning_total(results@));
                } else {
                    assert(summary.tally(c) == counted.tally(c));
                }
            }
            assert(summary.tally(AssertionCategory::Interface) == spec_tally(results@, AssertionCategory::Interface));
            assert(summary.tally(AssertionCategory::Authorization) == spec_tally(results@, AssertionCategory::Authorization));
            assert(summary.tally(AssertionCategory::Event) == spec_tally(results@, AssertionCategory::Event));
            assert(summary.tally(AssertionCategory::Behavior) == spec_tally(results@, AssertionCategory::Behavior));
            assert(summary.tally(AssertionCategory::State) == spec_tally(results@, AssertionCategory::State));
            assert(summary.tally(AssertionCategory::Invariant) == spec_tally(results@, AssertionCategory::Invariant));
            assert(summary.tally(AssertionCategory::Failure) == spec_tally(results@, AssertionCategory::Failure));
        }
        summary
    }
}

/// The outcome of one check, as the evaluator produced it.
#[derive(Debug, Clone, PartialEq)]
pub struct AssertionOutcome {
    /// The check's identifier, as the requirement names it.
    pub id: String,
    /// The dimension it belongs to.
    pub category: AssertionCategory,
    /// Its status, by its stable name.
    pub status: String,
    /// What the requirement asked for.
    pub expected: String,
    /// What was observed.
    pub observed: String,
    /// Anything further a reader needs.
    pub detail: Option<String>,
}

/// A finding the evaluator made about a vector that is not a check.
#[derive(Debug, Clone, PartialEq)]
pub struct OutcomeFinding {
    /// Its code, as written.
    pub code: String,
    /// What was found.
    pub message: String,
}

/// The outcome of one vector, as the evaluator produced it.
#[derive(Debug, Clone, PartialEq)]
pub struct VectorOutcome {
    pub vector_id: String,
    pub category: String,
    /// Its status, by its stable name.
    pub status: String,
    pub assertions: Vec<AssertionOutcome>,
    pub diagnostics: Vec<OutcomeFinding>,
}

/// The detail a reported check carries: the check as the requirement names it, then
/// any further detail on its own line.
pub open spec fn spec_detail_text(outcome: AssertionOutcome) -> Seq<char> {
    match outcome.detail {
        Some(extra) => "check: "@ + outcome.id@ + seq!['\n'] + extra@,
        None => "check: "@ + outcome.id@,
    }
}

/// What a check is reported as: its identifier normalised, its category and status by
/// name, and its values and detail bounded to the schema's limits.
pub open spec fn reported_assertion_matches(r: ReportedAssertion, outcome: AssertionOutcome) -> bool {
    &&& r.id@ == spec_identifier(outcome.id@)
    &&& r.category@ == outcome.category.spec_name()
    &&& r.status@ == outcome.status@
    &&& r.expected@ == spec_bounded(outcome.expected@, VALUE_LIMIT as nat)
    &&& r.observed@ == spec_bounded(outcome.observed@, VALUE_LIMIT as nat)
    &&& r.detail matches Some(d) && d@ == spec_bounded(spec_detail_text(outcome), DETAIL_LIMIT as nat)
}

/// Converts a check's outcome into its reported form.
pub fn report_assertion(outcome: &AssertionOutcome) -> (res: ReportedAssertion)
    ensures
        reported_assertion_matches(res, *outcome),
{
    let normalised = identifier(outcome.id.as_str());
    let mut detail = owned("check: ");
    push_str(&mut detail, outcome.id.as_str());
    match &outcome.detail {
        Some(extra) => {
            push_char(&mut detail, '\n');
            push_str(&mut detail, extra.as_str());
        },
        None => {},
    }
    proof { assert(detail@ =~= spec_detail_text(*outcome)); }
    ReportedAssertion {
        id: normalised,
        category: owned(outcome.category.as_str()),
        status: outcome.status.clone(),
        expected: bounded(outcome.expected.as_str(), VALUE_LIMIT),
        observed: bounded(outcome.observed.as_str(), VALUE_LIMIT),
        detail: Some(bounded(detail.as_str(), DETAIL_LIMIT)),
    }
}

/// What a vector is reported as: its identifier and category bounded, its status by
/// name, every check reported in order, and every finding with its code normalised and
/// its message bounded.
pub open spec fn reported_vector_matches(r: VectorResult, outcome: VectorOutcome) -> bool {
    &&& r.vector_id@ == spec_bounded(outcome.vector_id@, VECTOR_ID_LIMIT as nat)
    &&& r.category@ == spec_bounded(outcome.category@, 32)
    &&& r.status@ == outcome.status@
    &&& r.assertions@.len() == outcome.assertions@.len()
    &&& forall|i: int| 0 <= i < r.assertions@.len() ==> reported_assertion_matches(#[trigger] r.assertions@[i], outcome.assertions@[i])
    &&& r.diagnostics@.len() == outcome.diagnostics@.len()
    &&& forall|i: int| 0 <= i < r.diagnostics@.len() ==> {
        &&& (#[trigger] r.diagnostics@[i]).code@ == spec_bounded(spec_identifier(outcome.diagnostics@[i].code@), 64)
        &&& r.diagnostics@[i].message@ == spec_bounded(outcome.diagnostics@[i].message@, VALUE_LIMIT as nat)
    }
}

/// Converts a vector's outcome into its reported form.
pub fn report_vector(outcome: &VectorOutcome) -> (res: VectorResult)
    ensures
        reported_vector_matches(res, *outcome),
{
    let mut assertions: Vec<ReportedAssertion> = Vec::new();
    let mut i: usize = 0;
    while i < outcome.assertions.len()
        invariant
            i <= outcome.assertions@.len(),
            assertions@.len() == i,
            forall|k: int| 0 <= k < i ==> reported_assertion_matches(#[trigger] assertions@[k], outcome.assertions@[k]),
        decreases outcome.assertions@.len() - i,
    {
        assertions.push(report_assertion(&outcome.assertions[i]));
        i = i + 1;
    }
    let mut diagnostics: Vec<ReportedDiagnostic> = Vec::new();
    let mut k: usize = 0;
    while k < outcome.diagnostics.len()
        invariant
            k <= outcome.diagnostics@.len(),
            diagnostics@.len() == k,
            forall|j: int| 0 <= j < k ==> {
                &&& (#[trigger] diagnostics@[j]).code@ == spec_bounded(spec_identifier(outcome.diagnostics@[j].code@), 64)
                &&& diagnostics@[j].message@ == spec_bounded(outcome.diagnostics@[j].message@, VALUE_LIMIT as nat)
            },
        decreases outcome.diagnostics@.len() - k,
    {
        let finding = &outcome.diagnostics[k];
        let code = identifier(finding.code.as_str());
        diagnostics.push(ReportedDiagnostic {
            code: bounded(code.as_str(), 64),
            message: bounded(finding.message.as_str(), VALUE_LIMIT),
        });
        k = k + 1;
    }
    VectorResult {
        vector_id: bounded(outcome.vector_id.as_str(), VECTOR_ID_LIMIT),
        category: bounded(outcome.category.as_str(), 32),
        status: outcome.status.clone(),
        assertions,
        diagnostics,
    }
}

/// Whether every two checks that share an identifier name the same dimension.
pub open spec fn consistent_categories(checks: Seq<ReportedAssertion>) -> bool {
    forall|i: int, j: int|
        0 <= i < checks.len() && 0 <= j < checks.len() && (#[trigger] checks[i]).id@ == (#[trigger] checks[j]).id@
            ==> checks[i].category@ == checks[j].category@
}

/// Whether some check carries `id`.
spec fn carries_id(checks: Seq<ReportedAssertion>, id: Seq<char>) -> bool {
    exists|i: int| 0 <= i < checks.len() && (#[trigger] checks[i]).id@ == id
}

/// The identifiers among the first `n` checks that are filed under `c`; with `failing`,
/// only those that failed somewhere.
spec fn counted_ids(checks: Seq<ReportedAssertion>, c: AssertionCategory, n: int, failing: bool) -> Set<Seq<char>>
    decreases n,
{
    if n <= 0 {
        Set::empty()
    } else {
        let prev = counted_ids(checks, c, n - 1, failing);
        let id = checks[n - 1].id@;
        if spec_category_of(final_category(checks, id)) == Some(c) && (!failing || failed_anywhere(checks, id)) {
            prev.insert(id)
        } else {
            prev
        }
    }
}

/// What the distinct counts count: the identifiers filed under `c`, and those of them
/// that failed somewhere.
proof fn lemma_counted_ids(checks: Seq<ReportedAssertion>, c: AssertionCategory, n: int, failing: bool)
    requires
        0 <= n <= checks.len(),
    ensures
        counted_ids(checks, c, n, failing).finite(),
        forall|id: Seq<char>| #[trigger] counted_ids(checks, c, n, failing).contains(id) <==> (
            (exists|i: int| 0 <= i < n && (#[trigger] checks[i]).id@ == id)
            && spec_category_of(final_category(checks, id)) == Some(c)
            && (!failing || failed_anywhere(checks, id))),
        counted_ids(checks, c, n, failing).len()
            == if failing { distinct_counts(checks, c, n).1 } else { distinct_counts(checks, c, n).0 },
    decreases n,
{
    if n > 0 {
        lemma_counted_ids(checks, c, n - 1, failing);
        let prev = counted_ids(checks, c, n - 1, failing);
        let now = counted_ids(checks, c, n, failing);
        let id = checks[n - 1].id@;
        assert forall|x: Seq<char>| #[trigger] now.contains(x) <==> (
            (exists|i: int| 0 <= i < n && (#[trigger] checks[i]).id@ == x)
            && spec_category_of(final_category(checks, x)) == Some(c)
            && (!failing || failed_anywhere(checks, x))) by {
            if exists|i: int| 0 <= i < n && (#[trigger] checks[i]).id@ == x {
                let i = choose|i: int| 0 <= i < n && (#[trigger] checks[i]).id@ == x;
                if i < n - 1 {
                    assert(exists|i: int| 0 <= i < n - 1 && (#[trigger] checks[i]).id@ == x);
                }
            }
            if prev.contains(x) {
                let i = choose|i: int| 0 <= i < n - 1 && (#[trigger] checks[i]).id@ == x;
                assert(0 <= i < n && checks[i].id@ == x);
            }
        }
        if is_first_occurrence(checks, n - 1) {
            if prev.contains(id) {
                let i = choose|i: int| 0 <= i < n - 1 && (#[trigger] checks[i]).id@ == id;
                assert(checks[i].id@ != checks[n - 1].id@);
            }
        } else {
            let j = choose|j: int| 0 <= j < n - 1 && (#[trigger] checks[j]).id@ == checks[n - 1].id@;
            assert(!counts_toward(checks, n - 1, c));
            if spec_category_of(final_category(checks, id)) == Some(c) && (!failing || failed_anywhere(checks, id)) {
                assert(prev.contains(id));
                assert(now =~= prev);
            }
        }
    }
}

/// Where checks that share an identifier name one dimension, the dimension an
/// identifier is filed under is that of any check carrying it.
proof fn lemma_final_category_consistent(checks: Seq<ReportedAssertion>, i: int)
    requires
        consistent_categories(checks),
        0 <= i < checks.len(),
    ensures
        final_category(checks, checks[i].id@) == checks[i].category@,
    decreases checks.len(),
{
    let last = checks.len() - 1;
    if checks.last().id@ == checks[i].id@ {
        assert(checks[last].id@ == checks[i].id@);
    } else {
        let prefix = checks.drop_last();
        assert forall|a: int, b: int|
            0 <= a < prefix.len() && 0 <= b < prefix.len() && (#[trigger] prefix[a]).id@ == (#[trigger] prefix[b]).id@
                implies prefix[a].category@ == prefix[b].category@ by {
            assert(prefix[a] == checks[a] && prefix[b] == checks[b]);
        }
        assert(i < last);
        assert(prefix[i] == checks[i]);
        lemma_final_category_consistent(prefix, i);
    }
}

/// A check is among all the checks exactly when some result reports it.
proof fn lemma_all_checks_members(results: Seq<VectorResult>, x: ReportedAssertion)
    ensures
        all_checks(results).contains(x)
            <==> exists|k: int| 0 <= k < results.len() && (#[trigger] results[k]).assertions@.contains(x),
    decreases results.len(),
{
    if results.len() > 0 {
        let prefix = results.drop_last();
        lemma_all_checks_members(prefix, x);
        let head = all_checks(prefix);
        let tail = results.last().assertions@;
        let all = all_checks(results);
        assert(all == head + tail);
        if all.contains(x) {
            let p = choose|p: int| 0 <= p < all.len() && all[p] == x;
            if p < head.len() {
                assert(head[p] == x);
                let k = choose|k: int| 0 <= k < prefix.len() && (#[trigger] prefix[k]).assertions@.contains(x);
                assert(results[k] == prefix[k]);
            } else {
                assert(tail[p - head.len()] == x);
                assert(results[results.len() - 1].assertions@.contains(x));
            }
        }
        if exists|k: int| 0 <= k < results.len() && (#[trigger] results[k]).assertions@.contains(x) {
            let k = choose|k: int| 0 <= k < results.len() && (#[trigger] results[k]).assertions@.contains(x);
            if k < prefix.len() {
                assert(prefix[k] == results[k]);
                let p = choose|p: int| 0 <= p < head.len() && head[p] == x;
                assert(all[p] == x);
            } else {
                let p = choose|p: int| 0 <= p < tail.len() && tail[p] == x;
                assert(all[head.len() + p] == x);
            }
        }
    }
}

/// Two lists of the same results report the same checks.
proof fn lemma_same_checks(first: Seq<VectorResult>, second: Seq<VectorResult>, x: ReportedAssertion)
    requires
        first.to_multiset() == second.to_multiset(),
    ensures
        all_checks(first).contains(x) <==> all_checks(second).contains(x),
{
    first.to_multiset_ensures();
    second.to_multiset_ensures();
    lemma_all_checks_members(first, x);
    lemma_all_checks_members(second, x);
    if all_checks(first).contains(x) {
        let k = choose|k: int| 0 <= k < first.len() && (#[trigger] first[k]).assertions@.contains(x);
        assert(first.contains(first[k]));
        assert(first.to_multiset().count(first[k]) > 0);
        assert(second.to_multiset().count(first[k]) > 0);
        assert(second.contains(first[k]));
        let m = choose|m: int| 0 <= m < second.len() && second[m] == first[k];
        assert(second[m].assertions@.contains(x));
    }
    if all_checks(second).contains(x) {
        let k = choose|k: int| 0 <= k < second.len() && (#[trigger] second[k]).assertions@.contains(x);
        assert(second.contains(second[k]));
        assert(second.to_multiset().count(second[k]) > 0);
        assert(first.to_multiset().count(second[k]) > 0);
        assert(first.contains(second[k]));
        let m = choose|m: int| 0 <= m < first.len() && first[m] == second[k];
        assert(first[m].assertions@.contains(x));
    }
}

/// The violated warnings over every result, added as numbers.
spec fn warning_sum(results: Seq<VectorResult>) -> nat
    decreases results.len(),
{
    if results.len() == 0 {
        0
    } else {
        warning_sum(results.drop_last()) + warnings_of(results.last())
    }
}

proof fn lemma_warning_total_is_capped_sum(results: Seq<VectorResult>)
    ensures
        warning_total(results) == capped(warning_sum(results)),
    decreases results.len(),
{
    if results.len() > 0 {
        lemma_warning_total_is_capped_sum(results.drop_last());
    }
}

proof fn lemma_warning_sum_remove(results: Seq<VectorResult>, k: int)
    requires
        0 <= k < results.len(),
    ensures
        warning_sum(results) == warning_sum(results.remove(k)) + warnings_of(results[k]),
    decreases results.len(),
{
    if k == results.len() - 1 {
        assert(results.remove(k) =~= results.drop_last());
    } else {
        lemma_warning_sum_remove(results.drop_last(), k);
        let removed = results.remove(k);
        assert(removed.drop_last() =~= results.drop_last().remove(k));
        assert(removed.last() == results.last());
    }
}

proof fn lemma_warning_sum_permutation(first: Seq<VectorResult>, second: Seq<VectorResult>)
    requires
        first.to_multiset() == second.to_multiset(),
    ensures
        warning_sum(first) == warning_sum(second),
    decreases first.len(),
{
    first.to_multiset_ensures();
    second.to_multiset_ensures();
    if first.len() == 0 {
        assert(second.len() == 0);
    } else {
        let x = first.last();
        let rest = first.drop_last();
        rest.to_multiset_ensures();
        assert(rest.push(x) =~= first);
        assert(first.to_multiset() == rest.to_multiset().insert(x));
        assert(first.contains(x)) by {
            assert(first[first.len() - 1] == x);
        }
        assert(first.to_multiset().count(x) > 0);
        assert(second.to_multiset().count(x) > 0);
        assert(second.contains(x));
        let k = choose|k: int| 0 <= k < second.len() && second[k] == x;
        assert(second.remove(k).to_multiset() == second.to_multiset().remove(x));
        assert(rest.to_multiset().insert(x).remove(x) =~= rest.to_multiset());
        lemma_warning_sum_permutation(rest, second.remove(k));
        lemma_warning_sum_remove(second, k);
    }
}

/// The tally of one dimension does not depend on the order of the results.
proof fn lemma_tally_ignores_order(first: Seq<VectorResult>, second: Seq<VectorResult>, c: AssertionCategory)
    requires
        first.to_multiset() == second.to_multiset(),
        consistent_categories(all_checks(first)),
    ensures
        spec_tally(first, c) == spec_tally(second, c),
{
    let one = all_checks(first);
    let two = all_checks(second);
    assert forall|x: ReportedAssertion| one.contains(x) <==> two.contains(x) by {
        lemma_same_checks(first, second, x);
    }
    assert forall|a: int, b: int|
        0 <= a < two.len() && 0 <= b < two.len() && (#[trigger] two[a]).id@ == (#[trigger] two[b]).id@
            implies two[a].category@ == two[b].category@ by {
        assert(two.contains(two[a]) && two.contains(two[b]));
        let p = choose|p: int| 0 <= p < one.len() && one[p] == two[a];
        let q = choose|q: int| 0 <= q < one.len() && one[q] == two[b];
        assert(one[p].id@ == one[q].id@);
    }
    assert forall|id: Seq<char>| #[trigger] carries_id(one, id)
        implies carries_id(two, id)
            && final_category(one, id) == final_category(two, id)
            && (failed_anywhere(one, id) <==> failed_anywhere(two, id)) by {
        let i = choose|i: int| 0 <= i < one.len() && (#[trigger] one[i]).id@ == id;
        assert(one.contains(one[i]));
        let m = choose|m: int| 0 <= m < two.len() && two[m] == one[i];
        assert(two[m].id@ == id);
        assert(carries_id(two, id));
        lemma_final_category_consistent(one, i);
        lemma_final_category_consistent(two, m);
        if failed_anywhere(one, id) {
            let j = choose|j: int| 0 <= j < one.len() && (#[trigger] one[j]).id@ == id && one[j].status@ == "failed"@;
            assert(one.contains(one[j]));
            let n = choose|n: int| 0 <= n < two.len() && two[n] == one[j];
            assert(two[n].id@ == id && two[n].status@ == "failed"@);
        }
        if failed_anywhere(two, id) {
            let j = choose|j: int| 0 <= j < two.len() && (#[trigger] two[j]).id@ == id && two[j].status@ == "failed"@;
            assert(two.contains(two[j]));
            let n = choose|n: int| 0 <= n < one.len() && one[n] == two[j];
            assert(one[n].id@ == id && one[n].status@ == "failed"@);
        }
    }
    assert forall|id: Seq<char>| #[trigger] carries_id(two, id) implies carries_id(one, id) by {
        let i = choose|i: int| 0 <= i < two.len() && (#[trigger] two[i]).id@ == id;
        assert(two.contains(two[i]));
        let m = choose|m: int| 0 <= m < one.len() && one[m] == two[i];
        assert(one[m].id@ == id);
    }
    lemma_counted_ids(one, c, one.len() as int, false);
    lemma_counted_ids(two, c, two.len() as int, false);
    lemma_counted_ids(one, c, one.len() as int, true);
    lemma_counted_ids(two, c, two.len() as int, true);
    let n1 = one.len() as int;
    let n2 = two.len() as int;
    assert forall|id: Seq<char>| #[trigger] counted_ids(one, c, n1, false).contains(id)
        == counted_ids(two, c, n2, false).contains(id) by {
        if carries_id(one, id) {
            let i = choose|i: int| 0 <= i < one.len() && (#[trigger] one[i]).id@ == id;
            assert(0 <= i < n1 && one[i].id@ == id);
        }
        if carries_id(two, id) {
            let i = choose|i: int| 0 <= i < two.len() && (#[trigger] two[i]).id@ == id;
            assert(0 <= i < n2 && two[i].id@ == id);
        }
    }
    assert forall|id: Seq<char>| #[trigger] counted_ids(one, c, n1, true).contains(id)
        == counted_ids(two, c, n2, true).contains(id) by {
        if carries_id(one, id) {
            let i = choose|i: int| 0 <= i < one.len() && (#[trigger] one[i]).id@ == id;
            assert(0 <= i < n1 && one[i].id@ == id);
        }
        if carries_id(two, id) {
            let i = choose|i: int| 0 <= i < two.len() && (#[trigger] two[i]).id@ == id;
            assert(0 <= i < n2 && two[i].id@ == id);
        }
    }
    assert(counted_ids(one, c, n1, false) =~= counted_ids(two, c, n2, false));
    assert(counted_ids(one, c, n1, true) =~= counted_ids(two, c, n2, true));
    lemma_warning_total_is_capped_sum(first);
    lemma_warning_total_is_capped_sum(second);
    lemma_warning_sum_permutation(first, second);
}

/// The summary does not depend on the order of the results: two lists of the same
/// results, in any order, are summarised alike, provided that checks sharing an
/// identifier name one dimension.
pub proof fn law_the_summary_ignores_result_order(first: Seq<VectorResult>, second: Seq<VectorResult>)
    requires
        first.to_multiset() == second.to_multiset(),
        consistent_categories(all_checks(first)),
    ensures
        Summary::spec_of(first) == Summary::spec_of(second),
{
    lemma_tally_ignores_order(first, second, AssertionCategory::Interface);
    lemma_tally_ignores_order(first, second, AssertionCategory::Authorization);
    lemma_tally_ignores_order(first, second, AssertionCategory::Event);
    lemma_tally_ignores_order(first, second, AssertionCategory::Behavior);
    lemma_tally_ignores_order(first, second, AssertionCategory::State);
    lemma_tally_ignores_order(first, second, AssertionCategory::Invariant);
    lemma_tally_ignores_order(first, second, AssertionCategory::Failure);
}

} // verus!

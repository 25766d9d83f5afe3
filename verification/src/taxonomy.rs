//! The error taxonomy, the six conformance statuses and the exit-code contract.
//!
//! A CI system reads a process exit code and nothing else, so the mapping from a
//! verdict to an exit code is fixed here. The distinction that matters most is between
//! `1` and `4`: only a violated requirement may produce `1`, and an environment that
//! failed produces `4`, so that an outage is never read as a contract defect.
use vstd::prelude::*;

use crate::text::{owned, str_eq};

verus! {

/// The class of a failure, which decides who is blamed for it.
#[derive(Debug, Clone, Copy, PartialEq, Eq, Structural)]
pub enum ErrorClass {
    /// The profile is unusable.
    ProfileError,
    /// A vector is unusable.
    VectorError,
    /// The run could not execute what it needed to.
    ExecutionError,
    /// A network could not be reached or answered wrongly.
    NetworkError,
    /// The contract could not be resolved to something measurable.
    ContractResolutionError,
    /// The command line was wrong.
    UsageError,
    /// A report could not be produced or read.
    ReportError,
    /// The runner itself failed.
    InternalError,
}

/// Who is at fault for a failure.
#[derive(Debug, Clone, Copy, PartialEq, Eq, Structural)]
pub enum Blame {
    /// The requirements (a profile or a vector) were unusable.
    Specification,
    /// The environment failed.
    Environment,
    /// The invocation was wrong.
    Invocation,
    /// The runner failed.
    Runner,
}

impl ErrorClass {
    /// Who a failure of this class is attributed to.
    pub open spec fn spec_blame(self) -> Blame {
        match self {
            ErrorClass::ProfileError | ErrorClass::VectorError => Blame::Specification,
            ErrorClass::ExecutionError | ErrorClass::NetworkError
            | ErrorClass::ContractResolutionError => Blame::Environment,
            ErrorClass::UsageError => Blame::Invocation,
            ErrorClass::ReportError | ErrorClass::InternalError => Blame::Runner,
        }
    }

    /// Who a failure of this class is attributed to.
    pub fn blame(self) -> (res: Blame)
        ensures
            res == self.spec_blame(),
    {
        match self {
            ErrorClass::ProfileError | ErrorClass::VectorError => Blame::Specification,
            ErrorClass::ExecutionError | ErrorClass::NetworkError
            | ErrorClass::ContractResolutionError => Blame::Environment,
            ErrorClass::UsageError => Blame::Invocation,
            ErrorClass::ReportError | ErrorClass::InternalError => Blame::Runner,
        }
    }

    /// The stable name the class is reported under.
    pub open spec fn spec_name(self) -> Seq<char> {
        match self {
            ErrorClass::ProfileError => "PROFILE_ERROR"@,
            ErrorClass::VectorError => "VECTOR_ERROR"@,
            ErrorClass::ExecutionError => "EXECUTION_ERROR"@,
            ErrorClass::NetworkError => "NETWORK_ERROR"@,
            ErrorClass::ContractResolutionError => "CONTRACT_RESOLUTION_ERROR"@,
            ErrorClass::UsageError => "USAGE_ERROR"@,
            ErrorClass::ReportError => "REPORT_ERROR"@,
            ErrorClass::InternalError => "INTERNAL_ERROR"@,
        }
    }

    /// The stable name the class is reported under.
    pub fn as_str(self) -> (res: &'static str)
        ensures
            res@ == self.spec_name(),
    {
        match self {
            ErrorClass::ProfileError => "PROFILE_ERROR",
            ErrorClass::VectorError => "VECTOR_ERROR",
            ErrorClass::ExecutionError => "EXECUTION_ERROR",
            ErrorClass::NetworkError => "NETWORK_ERROR",
            ErrorClass::ContractResolutionError => "CONTRACT_RESOLUTION_ERROR",
            ErrorClass::UsageError => "USAGE_ERROR",
            ErrorClass::ReportError => "REPORT_ERROR",
            ErrorClass::InternalError => "INTERNAL_ERROR",
        }
    }
}

impl Blame {
    /// The process exit code a failure with this blame ends the run with.
    pub open spec fn spec_exit_code(self) -> i32 {
        match self {
            Blame::Specification => 3,
            Blame::Environment => 4,
            Blame::Runner => 5,
            Blame::Invocation => 64,
        }
    }

    /// The process exit code a failure with this blame ends the run with.
    pub fn exit_code(self) -> (res: i32)
        ensures
            res == self.spec_exit_code(),
    {
        match self {
            Blame::Specification => 3,
            Blame::Environment => 4,
            Blame::Runner => 5,
            Blame::Invocation => 64,
        }
    }
}

/// The outcome of a run, as one of six explicit values.
#[derive(Debug, Clone, Copy, PartialEq, Eq, Structural)]
pub enum ConformanceStatus {
    /// Every required vector passed.
    Conformant,
    /// Some required vectors passed and others were violated.
    PartiallyConformant,
    /// Required behavioural requirements were violated.
    NonConformant,
    /// The suite could not reach a decision.
    Inconclusive,
    /// The requirements were unusable.
    ProfileError,
    /// The environment failed.
    ExecutionError,
}

impl ConformanceStatus {
    /// The stable name the verdict is reported under.
    pub open spec fn spec_name(self) -> Seq<char> {
        match self {
            ConformanceStatus::Conformant => "CONFORMANT"@,
            ConformanceStatus::PartiallyConformant => "PARTIALLY_CONFORMANT"@,
            ConformanceStatus::NonConformant => "NON_CONFORMANT"@,
            ConformanceStatus::Inconclusive => "INCONCLUSIVE"@,
            ConformanceStatus::ProfileError => "PROFILE_ERROR"@,
            ConformanceStatus::ExecutionError => "EXECUTION_ERROR"@,
        }
    }

    /// The stable name the verdict is reported under.
    pub fn as_str(self) -> (res: &'static str)
        ensures
            res@ == self.spec_name(),
    {
        match self {
            ConformanceStatus::Conformant => "CONFORMANT",
            ConformanceStatus::PartiallyConformant => "PARTIALLY_CONFORMANT",
            ConformanceStatus::NonConformant => "NON_CONFORMANT",
            ConformanceStatus::Inconclusive => "INCONCLUSIVE",
            ConformanceStatus::ProfileError => "PROFILE_ERROR",
            ConformanceStatus::ExecutionError => "EXECUTION_ERROR",
        }
    }

    /// The process exit code the verdict ends the run with.
    pub open spec fn spec_exit_code(self) -> i32 {
        match self {
            ConformanceStatus::Conformant => 0,
            ConformanceStatus::PartiallyConformant | ConformanceStatus::NonConformant => 1,
            ConformanceStatus::Inconclusive => 2,
            ConformanceStatus::ProfileError => 3,
            ConformanceStatus::ExecutionError => 4,
        }
    }

    /// The process exit code the verdict ends the run with.
    pub fn exit_code(self) -> (res: i32)
        ensures
            res == self.spec_exit_code(),
    {
        match self {
            ConformanceStatus::Conformant => 0,
            ConformanceStatus::PartiallyConformant | ConformanceStatus::NonConformant => 1,
            ConformanceStatus::Inconclusive => 2,
            ConformanceStatus::ProfileError => 3,
            ConformanceStatus::ExecutionError => 4,
        }
    }
}

/// Only a violated requirement produces exit code `1`, and a failed environment never
/// shares a code with a contract verdict.
pub proof fn law_only_a_violation_exits_one(status: ConformanceStatus, class: ErrorClass)
    ensures
        status.spec_exit_code() == 1 <==> (status is NonConformant || status is PartiallyConformant),
        status.spec_exit_code() == 0 <==> status is Conformant,
        class.spec_blame() is Environment ==> class.spec_blame().spec_exit_code() == 4,
        class.spec_blame().spec_exit_code() != 0 && class.spec_blame().spec_exit_code() != 1
            && class.spec_blame().spec_exit_code() != 2,
{
}

/// The verdict table: a run that could not decide exits `2`, unusable requirements
/// `3` and a failed environment `4`; the five kinds of verdict (conformant, violated,
/// undecided, unusable requirements, failed environment) never share a code; and the
/// two verdicts that blame someone other than the contract exit with the code of that
/// blame, while an undecided run exits with a code no blame has.
pub proof fn law_each_verdict_has_its_documented_exit_code(a: ConformanceStatus, b: ConformanceStatus, class: ErrorClass)
    ensures
        a.spec_exit_code() == 2 <==> a is Inconclusive,
        a.spec_exit_code() == 3 <==> a is ProfileError,
        a.spec_exit_code() == 4 <==> a is ExecutionError,
        a.spec_exit_code() == b.spec_exit_code() ==> a == b
            || ((a is NonConformant || a is PartiallyConformant) && (b is NonConformant || b is PartiallyConformant)),
        class.spec_blame().spec_exit_code() == a.spec_exit_code() ==> (a is ProfileError && class.spec_blame() is Specification)
            || (a is ExecutionError && class.spec_blame() is Environment),
        (a is ProfileError && class.spec_blame() is Specification) || (a is ExecutionError && class.spec_blame() is Environment)
            ==> class.spec_blame().spec_exit_code() == a.spec_exit_code(),
{
}

/// The blame table: a wrong command line, and only that, is blamed on the invocation
/// and exits `64`; unusable profiles and vectors are blamed on the specification and
/// exit `3`; a failed execution, network or contract resolution is blamed on the
/// environment and exits `4`; a report that could not be produced and an internal
/// failure are blamed on the runner and exit `5`; and no two blames share a code.
pub proof fn law_each_failure_class_is_blamed_as_documented(class: ErrorClass, a: Blame, b: Blame)
    ensures
        class.spec_blame() is Invocation <==> class is UsageError,
        class.spec_blame() is Specification <==> (class is ProfileError || class is VectorError),
        class.spec_blame() is Environment
            <==> (class is ExecutionError || class is NetworkError || class is ContractResolutionError),
        class.spec_blame() is Runner <==> (class is ReportError || class is InternalError),
        a.spec_exit_code() == 64 <==> a is Invocation,
        a.spec_exit_code() == 3 <==> a is Specification,
        a.spec_exit_code() == 4 <==> a is Environment,
        a.spec_exit_code() == 5 <==> a is Runner,
        a != b ==> a.spec_exit_code() != b.spec_exit_code(),
{
}

/// Every verdict and every failure class is reported under a name of its own: two
/// different verdicts, or two different classes, never share a name.
pub proof fn law_each_verdict_and_class_has_its_own_name(a: ConformanceStatus, b: ConformanceStatus, c: ErrorClass, d: ErrorClass)
    ensures
        a != b ==> a.spec_name() != b.spec_name(),
        c != d ==> c.spec_name() != d.spec_name(),
{
    reveal_strlit("CONFORMANT");
    reveal_strlit("PARTIALLY_CONFORMANT");
    reveal_strlit("NON_CONFORMANT");
    reveal_strlit("INCONCLUSIVE");
    reveal_strlit("PROFILE_ERROR");
    reveal_strlit("EXECUTION_ERROR");
    reveal_strlit("VECTOR_ERROR");
    reveal_strlit("NETWORK_ERROR");
    reveal_strlit("CONTRACT_RESOLUTION_ERROR");
    reveal_strlit("USAGE_ERROR");
    reveal_strlit("REPORT_ERROR");
    reveal_strlit("INTERNAL_ERROR");
    if a.spec_name() == b.spec_name() {
        assert(a.spec_name().len() == b.spec_name().len());
        assert(a.spec_name()[0] == b.spec_name()[0]);
    }
    if c.spec_name() == d.spec_name() {
        assert(c.spec_name().len() == d.spec_name().len());
        assert(c.spec_name()[0] == d.spec_name()[0]);
    }
}

/// How serious a finding is.
#[derive(Debug, Clone, Copy, PartialEq, Eq, Structural)]
pub enum Severity {
    /// The finding stops what it was found in from being used.
    Error,
    /// The finding is reported and does not stop anything.
    Warning,
}

/// A classified failure, with the facts a reader needs to act on it.
#[derive(Debug, Clone, PartialEq)]
pub struct Failure {
    /// Its class.
    pub class: ErrorClass,
    /// What happened.
    pub message: String,
    /// Named facts about it, in the order they were attached.
    pub context: Vec<(String, String)>,
}

impl Failure {
    /// A failure of `class` saying `message`, with no context yet.
    pub fn new(class: ErrorClass, message: String) -> (res: Self)
        ensures
            res.class == class,
            res.message@ == message@,
            res.context@.len() == 0,
    {
        Failure { class, message, context: Vec::new() }
    }

    /// The same failure with one more named fact.
    pub fn with_context(self, key: &str, value: String) -> (res: Self)
        ensures
            res.class == self.class,
            res.message@ == self.message@,
            res.context@.len() == self.context@.len() + 1,
            forall|i: int| 0 <= i < self.context@.len() ==> #[trigger] res.context@[i] == self.context@[i],
            res.context@.last().0@ == key@,
            res.context@.last().1@ == value@,
            context_view(res.context@) == context_view(self.context@).push((key@, value@)),
    {
        let ghost before = self.context@;
        let mut context = self.context;
        context.push((owned(key), value));
        let res = Failure { class: self.class, message: self.message, context };
        proof { assert(context_view(res.context@) =~= context_view(before).push((key@, value@))); }
        res
    }

    /// Its class.
    pub fn class(&self) -> (res: ErrorClass)
        ensures
            res == self.class,
    {
        self.class
    }

    /// Who is blamed for it.
    pub fn blame(&self) -> (res: Blame)
        ensures
            res == self.class.spec_blame(),
    {
        self.class.blame()
    }

    /// What happened.
    pub fn message(&self) -> (res: &str)
        ensures
            res@ == self.message@,
    {
        self.message.as_str()
    }

    /// The value of the first fact attached under `key`, where there is one.
    pub fn context_value(&self, key: &str) -> (res: Option<&str>)
        ensures
            match first_fact(context_view(self.context@), key@) {
                Some(i) => res matches Some(v) && v@ == context_view(self.context@)[i].1,
                None => res is None,
            },
    {
        let mut i: usize = 0;
        while i < self.context.len()
            invariant
                i <= self.context@.len(),
                forall|j: int| 0 <= j < i ==> (#[trigger] context_view(self.context@)[j]).0 != key@,
            decreases self.context@.len() - i,
        {
            if str_eq(self.context[i].0.as_str(), key) {
                proof {
                    let facts = context_view(self.context@);
                    assert(facts[i as int].0 == key@);
                    let c = first_fact(facts, key@)->0;
                    assert(facts[c].0 == key@);
                    if c < i {
                    } else if c > i {
                    }
                    assert(c == i);
                }
                return Some(self.context[i].1.as_str());
            }
            i = i + 1;
        }
        None
    }
}

/// The position of the first fact named `key`.
pub open spec fn first_fact(facts: Seq<(Seq<char>, Seq<char>)>, key: Seq<char>) -> Option<int> {
    if exists|k: int| 0 <= k < facts.len() && facts[k].0 == key {
        Some(choose|k: int| 0 <= k < facts.len() && facts[k].0 == key && forall|j: int| 0 <= j < k ==> facts[j].0 != key)
    } else {
        None
    }
}

/// A finding that is not itself a failure: an error that will stop what it was found
/// in, or a warning that is only reported.
#[derive(Debug, Clone, PartialEq)]
pub struct Diagnostic {
    /// Whether it stops what it was found in.
    pub severity: Severity,
    /// The class it would fail with.
    pub class: ErrorClass,
    /// What was found, for a person.
    pub message: String,
    /// Named facts for a machine, in the order they were attached.
    pub context: Vec<(String, String)>,
}

/// What a finding says, as values.
pub struct Finding {
    /// Whether it stops what it was found in.
    pub severity: Severity,
    /// The class it would fail with.
    pub class: ErrorClass,
    /// What was found.
    pub message: Seq<char>,
    /// Named facts, in order.
    pub context: Seq<(Seq<char>, Seq<char>)>,
}

/// The named facts of a context list, as values.
pub open spec fn context_view(context: Seq<(String, String)>) -> Seq<(Seq<char>, Seq<char>)> {
    context.map_values(|entry: (String, String)| (entry.0@, entry.1@))
}

impl View for Diagnostic {
    type V = Finding;

    open spec fn view(&self) -> Finding {
        Finding {
            severity: self.severity,
            class: self.class,
            message: self.message@,
            context: context_view(self.context@),
        }
    }
}

/// The findings a list of diagnostics says, as values.
pub open spec fn findings_of(list: Seq<Diagnostic>) -> Seq<Finding> {
    list.map_values(|d: Diagnostic| d@)
}

/// An error-severity finding.
pub open spec fn error_finding(class: ErrorClass, message: Seq<char>, context: Seq<(Seq<char>, Seq<char>)>) -> Finding {
    Finding { severity: Severity::Error, class, message, context }
}

/// A warning-severity finding with no context.
pub open spec fn warning_finding(class: ErrorClass, message: Seq<char>) -> Finding {
    Finding { severity: Severity::Warning, class, message, context: seq![] }
}

impl Diagnostic {
    /// An error-severity finding.
    pub fn error(class: ErrorClass, message: String) -> (res: Self)
        ensures
            res@ == error_finding(class, message@, seq![]),
    {
        let res = Diagnostic { severity: Severity::Error, class, message, context: Vec::new() };
        proof { assert(context_view(res.context@) =~= seq![]); }
        res
    }

    /// A warning-severity finding.
    pub fn warning(class: ErrorClass, message: String) -> (res: Self)
        ensures
            res@ == warning_finding(class, message@),
    {
        let res = Diagnostic { severity: Severity::Warning, class, message, context: Vec::new() };
        proof { assert(context_view(res.context@) =~= seq![]); }
        res
    }

    /// Attaches a named fact.
    pub fn with_context(self, key: &str, value: String) -> (res: Self)
        ensures
            res@.severity == self@.severity,
            res@.class == self@.class,
            res@.message == self@.message,
            res@.context == self@.context.push((key@, value@)),
    {
        let ghost before = self.context@;
        let mut context = self.context;
        context.push((owned(key), value));
        let res = Diagnostic { severity: self.severity, class: self.class, message: self.message, context };
        proof { assert(context_view(res.context@) =~= context_view(before).push((key@, value@))); }
        res
    }

    /// Whether it stops what it was found in.
    pub fn severity(&self) -> (res: Severity)
        ensures
            res == self.severity,
    {
        self.severity
    }

    /// The class it would fail with.
    pub fn class(&self) -> (res: ErrorClass)
        ensures
            res == self.class,
    {
        self.class
    }

    /// What was found.
    pub fn message(&self) -> (res: &str)
        ensures
            res@ == self.message@,
    {
        self.message.as_str()
    }
}

/// An ordered collection of findings.
#[derive(Debug, Clone, PartialEq)]
pub struct Diagnostics {
    /// The findings, in the order they were made.
    pub list: Vec<Diagnostic>,
}

impl View for Diagnostics {
    type V = Seq<Finding>;

    open spec fn view(&self) -> Seq<Finding> {
        findings_of(self.list@)
    }
}

impl Diagnostics {
    /// No findings.
    pub fn new() -> (res: Self)
        ensures
            res@ == Seq::<Finding>::empty(),
    {
        let res = Diagnostics { list: Vec::new() };
        proof { assert(res@ =~= Seq::<Finding>::empty()); }
        res
    }

    /// Records a finding after the others.
    pub fn push(&mut self, finding: Diagnostic)
        ensures
            final(self)@ == old(self)@.push(finding@),
    {
        let ghost before = self.list@;
        self.list.push(finding);
        proof { assert(findings_of(self.list@) =~= findings_of(before).push(finding@)); }
    }

    /// Records a warning after the others.
    pub fn warning(&mut self, class: ErrorClass, message: String)
        ensures
            final(self)@ == old(self)@.push(warning_finding(class, message@)),
    {
        self.push(Diagnostic::warning(class, message));
    }

    /// Records every finding of `other` after these, in its order.
    pub fn append(&mut self, other: Diagnostics)
        ensures
            final(self)@ == old(self)@ + other@,
    {
        let ghost before = self.list@;
        let mut list = other.list;
        self.list.append(&mut list);
        proof { assert(findings_of(self.list@) =~= findings_of(before) + other@); }
    }

    /// The findings, in order.
    pub fn findings(&self) -> (res: &Vec<Diagnostic>)
        ensures
            findings_of(res@) == self@,
    {
        &self.list
    }

    /// Whether nothing was found.
    pub fn is_empty(&self) -> (res: bool)
        ensures
            res == (self@.len() == 0),
    {
        self.list.len() == 0
    }

    /// How many findings there are.
    pub fn len(&self) -> (res: usize)
        ensures
            res == self@.len(),
    {
        self.list.len()
    }

    /// Whether any finding is an error.
    pub fn has_errors(&self) -> (res: bool)
        ensures
            res == exists|i: int| 0 <= i < self@.len() && (#[trigger] self@[i]).severity == Severity::Error,
    {
        let mut i: usize = 0;
        while i < self.list.len()
            invariant
                i <= self.list@.len(),
                forall|j: int| 0 <= j < i ==> (#[trigger] self.list@[j]).severity == Severity::Warning,
            decreases self.list@.len() - i,
        {
            if self.list[i].severity == Severity::Error {
                proof { assert(self@[i as int].severity == Severity::Error); }
                return true;
            }
            i = i + 1;
        }
        proof {
            assert forall|j: int| 0 <= j < self@.len() implies (#[trigger] self@[j]).severity != Severity::Error by {
                assert(self@[j].severity == self.list@[j].severity);
            }
        }
        false
    }
}

/// Whether `findings[i]` is the first error among them.
pub open spec fn is_first_error(findings: Seq<Finding>, i: int) -> bool {
    &&& 0 <= i < findings.len()
    &&& findings[i].severity == Severity::Error
    &&& forall|j: int| 0 <= j < i ==> (#[trigger] findings[j]).severity == Severity::Warning
}

/// Whether none of the findings is an error.
pub open spec fn no_errors(findings: Seq<Finding>) -> bool {
    forall|j: int| 0 <= j < findings.len() ==> (#[trigger] findings[j]).severity == Severity::Warning
}

/// Turns a collection of findings into a refusal when any of them is an error: the
/// refusal carries the class, message and context of the first error. Warnings alone
/// pass.
pub fn into_result(diagnostics: &Diagnostics) -> (res: Result<(), Failure>)
    ensures
        match res {
            Ok(()) => no_errors(diagnostics@),
            Err(failure) => exists|i: int| #[trigger] is_first_error(diagnostics@, i)
                && failure.class == diagnostics@[i].class
                && failure.message@ == diagnostics@[i].message
                && context_view(failure.context@) == diagnostics@[i].context,
        },
{
    let findings = &diagnostics.list;
    let mut i: usize = 0;
    while i < findings.len()
        invariant
            findings@ == diagnostics.list@,
            i <= findings@.len(),
            forall|j: int| 0 <= j < i ==> (#[trigger] findings@[j]).severity == Severity::Warning,
        decreases findings@.len() - i,
    {
        if findings[i].severity == Severity::Error {
            let found = &findings[i];
            let mut context: Vec<(String, String)> = Vec::new();
            let mut k: usize = 0;
            while k < found.context.len()
                invariant
                    k <= found.context@.len(),
                    context_view(context@) == context_view(found.context@.take(k as int)),
                decreases found.context@.len() - k,
            {
                let ghost before = context@;
                context.push((found.context[k].0.clone(), found.context[k].1.clone()));
                proof {
                    assert(context_view(context@) =~= context_view(before).push((found.context@[k as int].0@, found.context@[k as int].1@)));
                    assert(found.context@.take(k as int + 1) =~= found.context@.take(k as int).push(found.context@[k as int]));
                    assert(context_view(found.context@.take(k as int + 1)) =~= context_view(found.context@.take(k as int)).push((found.context@[k as int].0@, found.context@[k as int].1@)));
                }
                k = k + 1;
            }
            proof {
                assert(found.context@.take(k as int) =~= found.context@);
                assert(is_first_error(diagnostics@, i as int));
            }
            return Err(Failure { class: found.class, message: found.message.clone(), context });
        }
        i = i + 1;
    }
    Ok(())
}

} // verus!

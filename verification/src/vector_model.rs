//! The vector document, as typed structures.
//!
//! A vector describes a deterministic world, one operation against it, and exactly
//! what must be observed. Every quantity is an exact integer (see
//! [`crate::integer`]); every expectation is written in the expression algebra of
//! [`crate::expr`].
use vstd::prelude::*;

use crate::expr::{Predicate, ValueExpr};
use crate::integer::IntegerString;
use crate::profile_model::FailureCategory;
use crate::taxonomy::{ErrorClass, Failure};
use crate::text::{debug_text, owned, push_str, quoted, str_eq, text_lt};

verus! {

/// The class of property a vector probes.
#[derive(Debug, Clone, Copy, PartialEq, Eq, Structural)]
pub enum VectorKind {
    /// A path that must succeed.
    Positive,
    /// A path that must fail.
    Negative,
    /// A boundary of the interface's domain.
    Boundary,
    /// An authorization requirement.
    Authorization,
    /// An event requirement.
    Event,
    /// A state transition.
    State,
    /// An invariant.
    Invariant,
}

impl VectorKind {
    /// The stable machine-readable name.
    pub open spec fn spec_name(self) -> Seq<char> {
        match self {
            VectorKind::Positive => "positive"@,
            VectorKind::Negative => "negative"@,
            VectorKind::Boundary => "boundary"@,
            VectorKind::Authorization => "authorization"@,
            VectorKind::Event => "event"@,
            VectorKind::State => "state"@,
            VectorKind::Invariant => "invariant"@,
        }
    }

    /// The stable machine-readable name.
    pub fn as_str(self) -> (res: &'static str)
        ensures
            res@ == self.spec_name(),
    {
        match self {
            VectorKind::Positive => "positive",
            VectorKind::Negative => "negative",
            VectorKind::Boundary => "boundary",
            VectorKind::Authorization => "authorization",
            VectorKind::Event => "event",
            VectorKind::State => "state",
            VectorKind::Invariant => "invariant",
        }
    }
}

/// The conformance dimension an assertion belongs to.
#[derive(Debug, Clone, Copy, PartialEq, Eq, Structural)]
pub enum AssertionCategory {
    /// The interface's shape.
    Interface,
    /// Authorization.
    Authorization,
    /// Events.
    Event,
    /// Behaviour.
    Behavior,
    /// Contract state.
    State,
    /// A property that must survive the operation.
    Invariant,
    /// The reason a call failed.
    Failure,
}

impl AssertionCategory {
    /// The stable machine-readable name, matching the report schema.
    pub open spec fn spec_name(self) -> Seq<char> {
        match self {
            AssertionCategory::Interface => "interface"@,
            AssertionCategory::Authorization => "authorization"@,
            AssertionCategory::Event => "event"@,
            AssertionCategory::Behavior => "behavior"@,
            AssertionCategory::State => "state"@,
            AssertionCategory::Invariant => "invariant"@,
            AssertionCategory::Failure => "failure"@,
        }
    }

    /// Every category, in the order the report schema lists them.
    pub open spec fn spec_all() -> Seq<AssertionCategory> {
        seq![
            AssertionCategory::Interface,
            AssertionCategory::Authorization,
            AssertionCategory::Event,
            AssertionCategory::Behavior,
            AssertionCategory::State,
            AssertionCategory::Invariant,
            AssertionCategory::Failure,
        ]
    }

    /// Every category, in the order the report schema lists them.
    pub fn all() -> (res: Vec<AssertionCategory>)
        ensures
            res@ == Self::spec_all(),
    {
        vec![
            AssertionCategory::Interface,
            AssertionCategory::Authorization,
            AssertionCategory::Event,
            AssertionCategory::Behavior,
            AssertionCategory::State,
            AssertionCategory::Invariant,
            AssertionCategory::Failure,
        ]
    }

    /// The stable machine-readable name, matching the report schema.
    pub fn as_str(self) -> (res: &'static str)
        ensures
            res@ == self.spec_name(),
    {
        match self {
            AssertionCategory::Interface => "interface",
            AssertionCategory::Authorization => "authorization",
            AssertionCategory::Event => "event",
            AssertionCategory::Behavior => "behavior",
            AssertionCategory::State => "state",
            AssertionCategory::Invariant => "invariant",
            AssertionCategory::Failure => "failure",
        }
    }

    /// Every category is listed.
    pub proof fn lemma_listed(self)
        ensures
            Self::spec_all().contains(self),
    {
        let all = Self::spec_all();
        match self {
            AssertionCategory::Interface => assert(all[0] == self),
            AssertionCategory::Authorization => assert(all[1] == self),
            AssertionCategory::Event => assert(all[2] == self),
            AssertionCategory::Behavior => assert(all[3] == self),
            AssertionCategory::State => assert(all[4] == self),
            AssertionCategory::Invariant => assert(all[5] == self),
            AssertionCategory::Failure => assert(all[6] == self),
        }
    }
}

/// The dimension a category name names, where it names one: the first category in
/// the schema's order whose name it is.
pub open spec fn spec_category_of(name: Seq<char>) -> Option<AssertionCategory> {
    if exists|c: AssertionCategory| c.spec_name() == name {
        Some(choose|c: AssertionCategory| c.spec_name() == name)
    } else {
        None
    }
}

/// Two categories never share a name.
pub proof fn law_category_names_are_distinct(a: AssertionCategory, b: AssertionCategory)
    ensures
        a.spec_name() == b.spec_name() ==> a == b,
{
    reveal_strlit("interface");
    reveal_strlit("authorization");
    reveal_strlit("event");
    reveal_strlit("behavior");
    reveal_strlit("state");
    reveal_strlit("invariant");
    reveal_strlit("failure");
    if a.spec_name() == b.spec_name() {
        assert(a.spec_name().len() == b.spec_name().len());
        assert(a.spec_name()[0] == b.spec_name()[0]);
        assert(a.spec_name()[2] == b.spec_name()[2]);
        match a {
            AssertionCategory::Interface => {},
            AssertionCategory::Authorization => {},
            AssertionCategory::Event => {},
            AssertionCategory::Behavior => {},
            AssertionCategory::State => {},
            AssertionCategory::Invariant => {},
            AssertionCategory::Failure => {},
        }
    }
}

/// The dimension a reported category names, where it names one.
pub fn category_of(name: &str) -> (res: Option<AssertionCategory>)
    ensures
        res == spec_category_of(name@),
{
    let all = AssertionCategory::all();
    let mut i: usize = 0;
    while i < all.len()
        invariant
            all@ == AssertionCategory::spec_all(),
            i <= all@.len(),
            forall|j: int| 0 <= j < i ==> (#[trigger] all@[j]).spec_name() != name@,
        decreases all@.len() - i,
    {
        if str_eq(all[i].as_str(), name) {
            proof {
                let c = choose|c: AssertionCategory| c.spec_name() == name@;
                law_category_names_are_distinct(c, all@[i as int]);
            }
            return Some(all[i]);
        }
        i = i + 1;
    }
    proof {
        assert forall|c: AssertionCategory| c.spec_name() != name@ by {
            c.lemma_listed();
        }
    }
    None
}

/// The vector document.
#[derive(Debug, PartialEq)]
pub struct VectorDocument {
    /// The schema the document names, when it names one.
    pub schema: Option<String>,
    /// Globally unique vector identifier.
    pub id: String,
    /// The profile this vector belongs to, or `*` for a profile-independent one.
    pub profile: String,
    /// The profile version the vector was written against; for a wildcard vector, the
    /// format version.
    pub profile_version: String,
    pub title: String,
    /// What the vector establishes.
    pub description: String,
    pub kind: VectorKind,
    /// Id of the method under test.
    pub method: String,
    /// Labels used to select a subset of a suite.
    pub tags: Vec<String>,
    pub fixtures: Fixtures,
    /// Argument name to value, in name order (see [`VectorDocument::well_formed`]).
    pub inputs: Vec<(String, ValueExpr)>,
    pub authorization: AuthorizationPlan,
    pub expected: ExpectedOutcome,
    /// Additional independently reported checks.
    pub assertions: Vec<Assertion>,
    pub rationale: String,
    pub references: Vec<String>,
}

/// The deterministic world an operation runs against.
#[derive(Debug, PartialEq)]
pub struct Fixtures {
    pub actors: Vec<FixtureActor>,
    /// Opening balance per actor name, in name order (see [`Fixtures::well_formed`]).
    pub balances: Vec<(String, IntegerString)>,
    pub allowances: Vec<FixtureAllowance>,
    pub total_supply: Option<IntegerString>,
    pub ledger: LedgerFixture,
    /// Whether each actor holds token-level authorization, in name order (see
    /// [`Fixtures::well_formed`]).
    pub authorization: Vec<(String, bool)>,
}

/// Whether named entries are in strictly increasing name order, so that no name occurs
/// twice: the shape of a map keyed by name.
pub open spec fn in_name_order<T>(entries: Seq<(String, T)>) -> bool {
    forall|i: int, j: int| 0 <= i < j < entries.len() ==> text_lt(#[trigger] entries[i].0@, #[trigger] entries[j].0@)
}

impl Fixtures {
    /// The opening balances and the authorizations are each keyed by actor name, in
    /// name order.
    pub open spec fn well_formed(&self) -> bool {
        in_name_order(self.balances@) && in_name_order(self.authorization@)
    }
}

impl VectorDocument {
    /// The fixtures are well formed and the inputs are keyed by argument name, in name
    /// order.
    pub open spec fn well_formed(&self) -> bool {
        self.fixtures.well_formed() && in_name_order(self.inputs@)
    }
}

/// One account or contract in a fixture.
#[derive(Debug, PartialEq)]
pub struct FixtureActor {
    /// The name the operation refers to it by.
    pub name: String,
    pub kind: ActorKind,
    /// A link into the shared fixture library.
    pub reference: Option<String>,
    pub description: Option<String>,
}

/// Whether a fixture actor is an account or a contract.
#[derive(Debug, Clone, Copy, PartialEq, Eq, Structural)]
pub enum ActorKind {
    Account,
    Contract,
}

/// An allowance granted before the operation runs.
#[derive(Debug, PartialEq)]
pub struct FixtureAllowance {
    pub from: String,
    pub spender: String,
    pub amount: IntegerString,
    pub live_until_ledger: Option<u32>,
}

/// The ledger point an operation executes at.
#[derive(Debug, PartialEq)]
pub struct LedgerFixture {
    pub sequence: u32,
    /// The ledger close time, as an RFC 3339 timestamp.
    pub timestamp: String,
}

/// Which actors sign the invocation, and what that is expected to achieve.
#[derive(Debug, PartialEq)]
pub struct AuthorizationPlan {
    pub actors: Vec<String>,
    pub expected: AuthorizationExpectation,
    /// Actors whose authorization is deliberately replaced by another actor's.
    pub substituted_for: Vec<String>,
}

/// What a call's signing is expected to achieve.
#[derive(Debug, Clone, Copy, PartialEq, Eq, Structural)]
pub enum AuthorizationExpectation {
    Accepted,
    Rejected,
    NotRequired,
}

/// What must be observed.
#[derive(Debug, PartialEq)]
pub struct ExpectedOutcome {
    pub outcome: ExpectedResult,
    /// Id of the failure requirement the call must produce.
    pub failure: Option<String>,
    /// The semantic class of failure, for a profile-independent vector.
    pub failure_category: Option<FailureCategory>,
    /// The expected return value, omitted for a void return.
    pub return_value: Option<ValueExpr>,
    pub state_assertions: Vec<StateAssertion>,
    pub events: EventExpectations,
    /// Ids of the invariants that must survive the operation.
    pub invariants: Vec<String>,
}

/// Whether a call must succeed or fail.
#[derive(Debug, Clone, Copy, PartialEq, Eq, Structural)]
pub enum ExpectedResult {
    Success,
    Failure,
}

/// The events a vector requires and forbids.
#[derive(Debug, PartialEq)]
pub struct EventExpectations {
    pub required: Vec<EventExpectation>,
    /// Ids of events that must not appear.
    pub forbidden: Vec<String>,
}

/// A concrete expected event.
#[derive(Debug, PartialEq)]
pub struct EventExpectation {
    /// Id of the event requirement matched.
    pub event: String,
    pub topics: Vec<ValueExpr>,
    pub data: Vec<ValueExpr>,
}

/// One state assertion.
#[derive(Debug, PartialEq)]
pub struct StateAssertion {
    pub id: String,
    pub description: Option<String>,
    pub resource: StateResourceRef,
    pub predicate: Predicate,
}

/// The piece of contract state an assertion reads.
#[derive(Debug, PartialEq)]
pub enum StateResourceRef {
    Balance { account: String },
    Allowance { from: String, spender: String },
    TotalSupply,
    LedgerSequence,
    Custom { name: String, read: ValueExpr },
}

/// One independently reported check.
#[derive(Debug, PartialEq)]
pub struct Assertion {
    pub id: String,
    pub category: AssertionCategory,
    pub description: String,
    pub predicate: Predicate,
}

/// What parsing a timestamp as RFC 3339 gives: the instant as seconds since the Unix
/// epoch, or the parser's account of why the text is not one.
pub uninterp spec fn rfc3339_seconds(text: Seq<char>) -> Result<i64, Seq<char>>;

/// Parses an RFC 3339 date-time.
///
/// Calls `time::OffsetDateTime::parse` with the `Rfc3339` description, then takes
/// `unix_timestamp`; on failure, the parse error as `Display` writes it. The result is
/// named rather than described: it depends on the text alone.
#[verifier::external_body]
fn parse_rfc3339(text: &str) -> (res: Result<i64, String>)
    ensures
        match (res, rfc3339_seconds(text@)) {
            (Ok(a), Ok(b)) => a == b,
            (Err(a), Err(b)) => a@ == b,
            _ => false,
        },
{
    match time::OffsetDateTime::parse(text, &time::format_description::well_known::Rfc3339) {
        Ok(parsed) => Ok(parsed.unix_timestamp()),
        Err(problem) => Err(problem.to_string()),
    }
}

/// The refusal of a timestamp that is not RFC 3339.
pub open spec fn not_rfc3339_message(text: Seq<char>, problem: Seq<char>) -> Seq<char> {
    "the ledger timestamp "@ + debug_text(text) + " is not an RFC 3339 date-time: "@ + problem
}

/// The refusal of a timestamp before the epoch.
pub open spec fn before_epoch_message(text: Seq<char>) -> Seq<char> {
    "the ledger timestamp "@ + debug_text(text) + " is before the Unix epoch"@
}

/// The close time a parsed timestamp gives: its seconds since the epoch, refused as a
/// vector defect when the text was not RFC 3339 or names an instant before the epoch.
pub fn unix_seconds(timestamp: &str, parsed: Result<i64, String>) -> (res: Result<u64, Failure>)
    ensures
        match parsed {
            Err(problem) => res matches Err(f) && f.class == ErrorClass::VectorError
                && f.message@ == not_rfc3339_message(timestamp@, problem@),
            Ok(seconds) => if seconds < 0 {
                res matches Err(f) && f.class == ErrorClass::VectorError && f.message@ == before_epoch_message(timestamp@)
            } else {
                res == Ok::<u64, Failure>(seconds as u64)
            },
        },
{
    match parsed {
        Err(problem) => {
            let mut message = owned("the ledger timestamp ");
            push_str(&mut message, quoted(timestamp).as_str());
            push_str(&mut message, " is not an RFC 3339 date-time: ");
            push_str(&mut message, problem.as_str());
            Err(Failure::new(ErrorClass::VectorError, message))
        },
        Ok(seconds) => {
            if seconds < 0 {
                let mut message = owned("the ledger timestamp ");
                push_str(&mut message, quoted(timestamp).as_str());
                push_str(&mut message, " is before the Unix epoch");
                Err(Failure::new(ErrorClass::VectorError, message))
            } else {
                Ok(seconds as u64)
            }
        },
    }
}

impl LedgerFixture {
    /// The close time as seconds since the Unix epoch; a timestamp that is not an
    /// RFC 3339 date-time, or is before the epoch, is a vector defect.
    pub fn timestamp_unix(&self) -> (res: Result<u64, Failure>)
        ensures
            match rfc3339_seconds(self.timestamp@) {
                Err(problem) => res matches Err(f) && f.class == ErrorClass::VectorError
                    && f.message@ == not_rfc3339_message(self.timestamp@, problem),
                Ok(seconds) => if seconds < 0 {
                    res matches Err(f) && f.class == ErrorClass::VectorError && f.message@ == before_epoch_message(self.timestamp@)
                } else {
                    res == Ok::<u64, Failure>(seconds as u64)
                },
            },
    {
        let parsed = parse_rfc3339(self.timestamp.as_str());
        unix_seconds(self.timestamp.as_str(), parsed)
    }
}

} // verus!

//! The profile bundle's documents, as typed structures.
//!
//! A profile is a directory of seven documents: the entry point, which identifies the
//! profile and names the others, and six requirement layers (methods, authorization,
//! events, behaviour, invariants and failures). Each layer refers into the others by
//! identifier, and those references are what [`crate::references`] resolves.
use vstd::prelude::*;

use crate::expr::{Literal, Predicate, ValueExpr};
use crate::text::str_eq;

verus! {

/// The entry point of a bundle.
#[derive(Debug, PartialEq)]
pub struct ProfileDocument {
    /// The format version the bundle is written against.
    pub estamora_spec_version: String,
    /// Who the profile is and where it comes from.
    pub profile: ProfileMetadata,
    /// The six requirement documents and the vector directories.
    pub includes: BundleManifest,
}

/// Identity and provenance of a profile.
#[derive(Debug, PartialEq)]
pub struct ProfileMetadata {
    /// Stable identifier, such as `sep-41`.
    pub id: String,
    /// The profile's own revision.
    pub version: String,
    /// A human title.
    pub title: String,
    /// How settled the profile is.
    pub status: ProfileStatus,
    /// One sentence.
    pub summary: String,
    /// Longer prose.
    pub description: String,
    /// The licence the profile is published under.
    pub license: String,
    /// The upstream document the profile interprets.
    pub specification: SpecificationReference,
    /// The revision this one replaces.
    pub supersedes: Option<String>,
    /// The revision that replaces this one.
    pub superseded_by: Option<String>,
    /// Who maintains it.
    pub maintainers: Vec<String>,
    /// How much of the upstream interface it covers.
    pub compatibility: Compatibility,
    /// Where its requirements come from.
    pub provenance: Provenance,
}

/// How settled a profile is.
#[derive(Debug, Clone, Copy, PartialEq, Eq, Structural)]
pub enum ProfileStatus {
    /// Being written.
    Draft,
    /// Usable, and expected to change.
    Experimental,
    /// Settled.
    Stable,
    /// Replaced or withdrawn.
    Deprecated,
}

/// The upstream document a profile interprets.
#[derive(Debug, PartialEq)]
pub struct SpecificationReference {
    /// Its short name.
    pub name: String,
    /// Its title.
    pub title: String,
    /// The revision interpreted.
    pub version: String,
    /// Its own status upstream.
    pub status: UpstreamStatus,
    /// Where it is published.
    pub url: String,
    /// When it was last updated.
    pub updated: String,
}

/// The status an upstream document declares.
#[derive(Debug, Clone, Copy, PartialEq, Eq, Structural)]
pub enum UpstreamStatus {
    Draft,
    Review,
    Final,
    Living,
    Deprecated,
    Superseded,
    Unknown,
}

/// How much of the upstream interface a profile covers.
#[derive(Debug, PartialEq)]
pub struct Compatibility {
    /// Full or partial coverage.
    pub interface: InterfaceCoverage,
    /// What is left out, and why.
    pub notes: Vec<String>,
}

/// Full or partial coverage of an upstream interface.
#[derive(Debug, Clone, Copy, PartialEq, Eq, Structural)]
pub enum InterfaceCoverage {
    Full,
    Partial,
}

/// Where a profile's requirements come from.
#[derive(Debug, PartialEq)]
pub struct Provenance {
    /// The kind of source.
    pub source: ProvenanceSource,
    /// The source itself.
    pub derived_from: String,
    /// Where the profile had to interpret rather than transcribe.
    pub interpretation_notes: Vec<String>,
}

/// The kind of source a profile was derived from.
#[derive(Debug, Clone, Copy, PartialEq, Eq, Structural)]
pub enum ProvenanceSource {
    UpstreamSpecification,
    UpstreamImplementation,
    EcosystemConvention,
    Composite,
}

/// The documents a bundle's entry point names, as paths relative to the bundle.
#[derive(Debug, PartialEq)]
pub struct BundleManifest {
    pub methods: String,
    pub authorization: String,
    pub events: String,
    pub behavior: String,
    pub invariants: String,
    pub failures: String,
    /// Directories of vectors the bundle owns.
    pub vectors: Vec<String>,
    /// Directories of profile-independent vectors the bundle consumes.
    pub shared_vectors: Vec<String>,
}

impl BundleManifest {
    /// The six requirement documents, each with the role it plays, in the order the
    /// entry point lists them.
    pub fn files(&self) -> (res: [(&'static str, &str); 6])
        ensures
            res[0].0@ == "methods"@ && res[0].1@ == self.methods@,
            res[1].0@ == "authorization"@ && res[1].1@ == self.authorization@,
            res[2].0@ == "events"@ && res[2].1@ == self.events@,
            res[3].0@ == "behavior"@ && res[3].1@ == self.behavior@,
            res[4].0@ == "invariants"@ && res[4].1@ == self.invariants@,
            res[5].0@ == "failures"@ && res[5].1@ == self.failures@,
    {
        [
            ("methods", self.methods.as_str()),
            ("authorization", self.authorization.as_str()),
            ("events", self.events.as_str()),
            ("behavior", self.behavior.as_str()),
            ("invariants", self.invariants.as_str()),
            ("failures", self.failures.as_str()),
        ]
    }
}

/// The method layer.
#[derive(Debug, PartialEq)]
pub struct MethodsDocument {
    pub methods: Vec<MethodDefinition>,
}

/// One method of the interface.
#[derive(Debug, PartialEq)]
pub struct MethodDefinition {
    /// Stable identifier other documents refer to.
    pub id: String,
    /// The exported function name.
    pub name: String,
    /// Whether a conforming contract must export it.
    pub requirement: RequirementStatus,
    pub summary: String,
    pub description: Option<String>,
    /// The arguments, in declaration order.
    pub args: Vec<MethodArgument>,
    /// What it returns.
    pub return_type: MethodReturn,
    pub mutability: Mutability,
    pub invocation: Invocation,
    /// Authorization rules that govern it.
    pub authorization: Vec<String>,
    /// Events it may emit.
    pub events: Vec<String>,
    /// Failures it may produce.
    pub failures: Vec<String>,
    /// Behavioural rules that exercise it.
    pub behaviors: Vec<String>,
    pub notes: Vec<String>,
}

/// Whether an item is required, optional or forbidden.
#[derive(Debug, Clone, Copy, PartialEq, Eq, Structural)]
pub enum RequirementStatus {
    Required,
    Optional,
    Forbidden,
}

/// One argument of a method.
#[derive(Debug, PartialEq)]
pub struct MethodArgument {
    pub name: String,
    pub type_expr: TypeExpr,
    pub semantics: String,
    pub authorization: Option<ArgumentAuthorization>,
}

/// Whether an argument must authorize the call.
#[derive(Debug, PartialEq)]
pub struct ArgumentAuthorization {
    pub required: bool,
    pub semantics: String,
}

/// What a method returns.
#[derive(Debug, PartialEq)]
pub struct MethodReturn {
    pub type_expr: TypeExpr,
    pub semantics: String,
}

/// Whether a method changes state.
#[derive(Debug, Clone, Copy, PartialEq, Eq, Structural)]
pub enum Mutability {
    Readonly,
    Mutating,
}

/// How a method is meant to be called.
#[derive(Debug, Clone, Copy, PartialEq, Eq, Structural)]
pub enum Invocation {
    Invoke,
    ReadOnly,
    Simulate,
}

/// A type, as the profile writes it.
#[derive(Debug, PartialEq)]
pub enum TypeExpr {
    /// A primitive, with a width where the primitive takes one.
    Prim { name: PrimitiveType, width: Option<u32> },
    /// A vector of one element type.
    Vec { element: Box<TypeExpr> },
    /// An optional value.
    Option { some: Box<TypeExpr> },
    /// A map from one type to another.
    Mapping { key: Box<TypeExpr>, value: Box<TypeExpr> },
    /// A tuple.
    Tuple { elements: Vec<TypeExpr> },
    /// A result.
    Result { ok: Box<TypeExpr>, err: Box<TypeExpr> },
    /// A type the contract defines.
    Custom { name: String, description: Option<String> },
}

/// The primitive types a profile can name.
#[derive(Debug, Clone, Copy, PartialEq, Eq, Structural)]
pub enum PrimitiveType {
    Address,
    MuxedAddress,
    I128,
    U128,
    I64,
    U64,
    I32,
    U32,
    Bool,
    Symbol,
    String,
    Bytes,
    BytesN,
    Void,
    Val,
    Timepoint,
    Duration,
}

/// The authorization layer.
#[derive(Debug, PartialEq)]
pub struct AuthorizationDocument {
    pub authorization_rules: Vec<AuthorizationRule>,
}

/// One authorization requirement.
#[derive(Debug, PartialEq)]
pub struct AuthorizationRule {
    pub id: String,
    pub summary: String,
    pub description: Option<String>,
    /// The methods it governs.
    pub methods: Vec<String>,
    /// Who must authorize.
    pub actor: AuthorizationActor,
    /// Which arguments the authorization must cover.
    pub coverage: AuthorizationCoverage,
    /// What an unauthorized call must do.
    pub unauthorized: AuthorizationOutcome,
    /// What a call authorized by the wrong actor must do.
    pub wrong_actor: AuthorizationOutcome,
    pub replay_sensitive: bool,
    pub notes: Vec<String>,
}

/// Who must authorize a call.
#[derive(Debug, PartialEq)]
pub enum AuthorizationActor {
    /// The address passed as an argument.
    Argument { argument: String, on_behalf_of: bool },
    /// Whoever invokes the method.
    Invoker,
    /// Nobody.
    Nobody,
}

/// How the covered argument set is compared.
#[derive(Debug, Clone, Copy, PartialEq, Eq, Structural)]
pub enum CoverageMode {
    Exact,
    AtLeast,
    AtMost,
}

/// Which arguments an authorization must cover.
#[derive(Debug, PartialEq)]
pub struct AuthorizationCoverage {
    pub mode: CoverageMode,
    pub arguments: Vec<String>,
}

/// What a call must do on an authorization path.
#[derive(Debug, PartialEq)]
pub enum AuthorizationOutcome {
    /// It must succeed.
    Succeed,
    /// It must fail with a declared failure.
    Fail { failure: String },
}

/// The event layer.
#[derive(Debug, PartialEq)]
pub struct EventsDocument {
    pub events: Vec<EventDefinition>,
}

/// One event requirement.
#[derive(Debug, PartialEq)]
pub struct EventDefinition {
    pub id: String,
    pub name: String,
    pub requirement: RequirementStatus,
    pub summary: String,
    pub description: Option<String>,
    pub occurrence: EventOccurrence,
    /// The topics, by position.
    pub topics: Vec<EventTopic>,
    pub data: EventData,
    /// How many times it may be emitted.
    pub cardinality: EventCardinality,
    /// Events it must precede.
    pub ordering: Vec<EventOrdering>,
    /// Invariants it correlates with.
    pub correlations: Vec<String>,
    pub notes: Vec<String>,
}

/// When an event is emitted.
#[derive(Debug, Clone, Copy, PartialEq, Eq, Structural)]
pub enum EventOccurrence {
    OnSuccess,
    OnFailure,
    Always,
}

/// One topic of an event.
#[derive(Debug, PartialEq)]
pub struct EventTopic {
    /// Its position.
    pub index: u32,
    pub type_expr: TypeExpr,
    pub binding: EventBinding,
    pub semantics: String,
}

/// How an event's payload is laid out.
#[derive(Debug, Clone, Copy, PartialEq, Eq, Structural)]
pub enum EventDataFormat {
    Scalar,
    Vec,
    Mapping,
    Either,
}

/// An event's payload.
#[derive(Debug, PartialEq)]
pub struct EventData {
    pub format: EventDataFormat,
    pub fields: Vec<EventDataField>,
}

/// One field of an event's payload.
#[derive(Debug, PartialEq)]
pub struct EventDataField {
    pub name: String,
    pub type_expr: TypeExpr,
    pub binding: EventBinding,
    pub semantics: String,
    pub optional: bool,
}

/// A resource an event field can report after the operation.
#[derive(Debug, Clone, Copy, PartialEq, Eq, Structural)]
pub enum EventDataResource {
    Balance,
    Allowance,
    TotalSupply,
}

/// What an event topic or field must hold.
#[derive(Debug, PartialEq)]
pub enum EventBinding {
    /// A fixed value.
    Literal { value: Literal },
    /// A fixture actor's address.
    Actor { actor: String },
    /// One of the call's inputs.
    Input { name: String },
    /// A resource's value after the operation.
    StateAfter { resource: EventDataResource, target: String },
    /// What a read-only method returns.
    Read { method: String, args: Vec<ValueExpr> },
    /// Anything.
    Unconstrained,
}

/// How many times an event may be emitted.
#[derive(Debug, Clone, Copy, PartialEq, Eq, Structural)]
pub struct EventCardinality {
    pub min: u32,
    pub max: u32,
}

/// An event that must be emitted after this one.
#[derive(Debug, PartialEq)]
pub struct EventOrdering {
    pub before: String,
    pub strict: bool,
}

/// The behaviour layer.
#[derive(Debug, PartialEq)]
pub struct BehaviorDocument {
    pub behaviors: Vec<BehaviorRule>,
}

/// One behavioural rule.
#[derive(Debug, PartialEq)]
pub struct BehaviorRule {
    pub id: String,
    pub summary: String,
    pub description: Option<String>,
    /// The method it exercises.
    pub method: String,
    /// Whether the path succeeds or fails.
    pub kind: BehaviorKind,
    pub preconditions: Vec<Predicate>,
    pub postconditions: Vec<Predicate>,
    pub expect_failures: Vec<String>,
    pub expect_events: Vec<String>,
    pub forbid_events: Vec<String>,
    pub invariants: Vec<String>,
    pub notes: Vec<String>,
}

/// Whether a behavioural path succeeds or fails.
#[derive(Debug, Clone, Copy, PartialEq, Eq, Structural)]
pub enum BehaviorKind {
    Success,
    Failure,
}

impl BehaviorKind {
    /// The stable name.
    pub open spec fn spec_name(self) -> Seq<char> {
        match self {
            BehaviorKind::Success => "success"@,
            BehaviorKind::Failure => "failure"@,
        }
    }

    /// The stable name.
    pub fn as_str(self) -> (res: &'static str)
        ensures
            res@ == self.spec_name(),
    {
        match self {
            BehaviorKind::Success => "success",
            BehaviorKind::Failure => "failure",
        }
    }
}

/// The invariant layer.
#[derive(Debug, PartialEq)]
pub struct InvariantsDocument {
    pub invariants: Vec<InvariantDefinition>,
}

/// One invariant.
#[derive(Debug, PartialEq)]
pub struct InvariantDefinition {
    pub id: String,
    pub title: String,
    pub kind: InvariantKind,
    pub severity: InvariantSeverity,
    pub summary: String,
    pub description: Option<String>,
    /// Which methods and outcomes it applies to.
    pub scope: InvariantScope,
    /// The resource set it ranges over.
    pub resource: Option<String>,
    /// The condition, for a kind that takes one.
    pub predicate: Option<Predicate>,
    /// The direction, for a monotonic invariant.
    pub direction: Option<MonotonicDirection>,
    pub rationale: String,
    pub references: Vec<String>,
}

/// The family of check an invariant is.
#[derive(Debug, Clone, Copy, PartialEq, Eq, Structural)]
pub enum InvariantKind {
    Conservation,
    StateUnchanged,
    AuthorizationBlocksMutation,
    Monotonic,
    Bounds,
    Predicate,
}

impl InvariantKind {
    /// The stable name.
    pub open spec fn spec_name(self) -> Seq<char> {
        match self {
            InvariantKind::Conservation => "conservation"@,
            InvariantKind::StateUnchanged => "state_unchanged"@,
            InvariantKind::AuthorizationBlocksMutation => "authorization_blocks_mutation"@,
            InvariantKind::Monotonic => "monotonic"@,
            InvariantKind::Bounds => "bounds"@,
            InvariantKind::Predicate => "predicate"@,
        }
    }

    /// The stable name.
    pub fn as_str(self) -> (res: &'static str)
        ensures
            res@ == self.spec_name(),
    {
        match self {
            InvariantKind::Conservation => "conservation",
            InvariantKind::StateUnchanged => "state_unchanged",
            InvariantKind::AuthorizationBlocksMutation => "authorization_blocks_mutation",
            InvariantKind::Monotonic => "monotonic",
            InvariantKind::Bounds => "bounds",
            InvariantKind::Predicate => "predicate",
        }
    }

    /// Whether the family aggregates over a resource set.
    pub open spec fn spec_ranges_over_resource(self) -> bool {
        self is Conservation || self is Monotonic || self is Bounds
    }

    /// Whether the family aggregates over a resource set.
    pub fn ranges_over_resource(self) -> (res: bool)
        ensures
            res == self.spec_ranges_over_resource(),
    {
        match self {
            InvariantKind::Conservation | InvariantKind::Monotonic | InvariantKind::Bounds => true,
            _ => false,
        }
    }
}

/// Whether a broken invariant fails the vector or is only reported.
#[derive(Debug, Clone, Copy, PartialEq, Eq, Structural)]
pub enum InvariantSeverity {
    Error,
    Warning,
}

/// Which methods and outcomes an invariant applies to.
#[derive(Debug, PartialEq)]
pub struct InvariantScope {
    /// Method ids, or `*` for every method.
    pub methods: Vec<String>,
    pub outcomes: Vec<InvariantOutcome>,
}

/// An outcome an invariant is checked after.
#[derive(Debug, Clone, Copy, PartialEq, Eq, Structural)]
pub enum InvariantOutcome {
    Success,
    Failure,
}

/// The direction of a monotonic invariant.
#[derive(Debug, Clone, Copy, PartialEq, Eq, Structural)]
pub enum MonotonicDirection {
    NonIncreasing,
    NonDecreasing,
}

/// The failure layer.
#[derive(Debug, PartialEq)]
pub struct FailuresDocument {
    pub failures: Vec<FailureDefinition>,
}

/// One failure requirement.
#[derive(Debug, PartialEq)]
pub struct FailureDefinition {
    pub id: String,
    pub category: FailureCategory,
    pub summary: String,
    pub description: Option<String>,
    /// The methods that can produce it.
    pub methods: Vec<String>,
    /// What causes it.
    pub trigger: String,
    pub expected: FailureExpectation,
    pub error_codes: ErrorCodeRequirement,
    pub rationale: String,
    pub references: Vec<String>,
}

/// The semantic class of a failure, shared by every profile.
#[derive(Debug, Clone, Copy, PartialEq, Eq, Structural)]
pub enum FailureCategory {
    InsufficientBalance,
    InsufficientAllowance,
    Unauthorized,
    MissingAuthorization,
    WrongActor,
    InvalidAmount,
    InvalidAddress,
    InvalidArgument,
    InvalidState,
    Uninitialized,
    Expired,
    UnsupportedOperation,
    ArithmeticOverflow,
    Custom,
}

impl FailureCategory {
    /// The stable name.
    pub open spec fn spec_name(self) -> Seq<char> {
        match self {
            FailureCategory::InsufficientBalance => "insufficient_balance"@,
            FailureCategory::InsufficientAllowance => "insufficient_allowance"@,
            FailureCategory::Unauthorized => "unauthorized"@,
            FailureCategory::MissingAuthorization => "missing_authorization"@,
            FailureCategory::WrongActor => "wrong_actor"@,
            FailureCategory::InvalidAmount => "invalid_amount"@,
            FailureCategory::InvalidAddress => "invalid_address"@,
            FailureCategory::InvalidArgument => "invalid_argument"@,
            FailureCategory::InvalidState => "invalid_state"@,
            FailureCategory::Uninitialized => "uninitialized"@,
            FailureCategory::Expired => "expired"@,
            FailureCategory::UnsupportedOperation => "unsupported_operation"@,
            FailureCategory::ArithmeticOverflow => "arithmetic_overflow"@,
            FailureCategory::Custom => "custom"@,
        }
    }

    /// The stable name.
    pub fn as_str(self) -> (res: &'static str)
        ensures
            res@ == self.spec_name(),
    {
        match self {
            FailureCategory::InsufficientBalance => "insufficient_balance",
            FailureCategory::InsufficientAllowance => "insufficient_allowance",
            FailureCategory::Unauthorized => "unauthorized",
            FailureCategory::MissingAuthorization => "missing_authorization",
            FailureCategory::WrongActor => "wrong_actor",
            FailureCategory::InvalidAmount => "invalid_amount",
            FailureCategory::InvalidAddress => "invalid_address",
            FailureCategory::InvalidArgument => "invalid_argument",
            FailureCategory::InvalidState => "invalid_state",
            FailureCategory::Uninitialized => "uninitialized",
            FailureCategory::Expired => "expired",
            FailureCategory::UnsupportedOperation => "unsupported_operation",
            FailureCategory::ArithmeticOverflow => "arithmetic_overflow",
            FailureCategory::Custom => "custom",
        }
    }

    /// Whether the category is an authorization rejection.
    pub open spec fn spec_is_authorization(self) -> bool {
        self is Unauthorized || self is MissingAuthorization || self is WrongActor
    }

    /// Whether the category is an authorization rejection.
    pub fn is_authorization(self) -> (res: bool)
        ensures
            res == self.spec_is_authorization(),
    {
        match self {
            FailureCategory::Unauthorized | FailureCategory::MissingAuthorization
            | FailureCategory::WrongActor => true,
            _ => false,
        }
    }
}

/// Each failure category has a name of its own: two different categories are never
/// written the same way, so a name read back from a document names one category.
pub proof fn law_failure_category_names_are_distinct(a: FailureCategory, b: FailureCategory)
    ensures
        a != b ==> a.spec_name() != b.spec_name(),
{
    reveal_strlit("insufficient_balance");
    reveal_strlit("insufficient_allowance");
    reveal_strlit("unauthorized");
    reveal_strlit("missing_authorization");
    reveal_strlit("wrong_actor");
    reveal_strlit("invalid_amount");
    reveal_strlit("invalid_address");
    reveal_strlit("invalid_argument");
    reveal_strlit("invalid_state");
    reveal_strlit("uninitialized");
    reveal_strlit("expired");
    reveal_strlit("unsupported_operation");
    reveal_strlit("arithmetic_overflow");
    reveal_strlit("custom");
    if a.spec_name() == b.spec_name() {
        assert(a.spec_name().len() == b.spec_name().len());
        assert(a.spec_name()[0] == b.spec_name()[0]);
        assert(a.spec_name()[8] == b.spec_name()[8]);
    }
}

/// What a failing call must look like.
#[derive(Debug, PartialEq)]
pub struct FailureExpectation {
    pub outcome: FailureOutcome,
    pub signal: FailureSignal,
    pub state_effect: StateEffect,
    pub events_emitted: EventsEmitted,
}

/// The outcome a failure requirement describes.
#[derive(Debug, Clone, Copy, PartialEq, Eq, Structural)]
pub enum FailureOutcome {
    Failure,
}

/// How a failure surfaces.
#[derive(Debug, Clone, Copy, PartialEq, Eq, Structural)]
pub enum FailureSignal {
    Trap,
    Panic,
    HostError,
    Either,
}

impl FailureSignal {
    /// The stable name.
    pub open spec fn spec_name(self) -> Seq<char> {
        match self {
            FailureSignal::Trap => "trap"@,
            FailureSignal::Panic => "panic"@,
            FailureSignal::HostError => "host_error"@,
            FailureSignal::Either => "either"@,
        }
    }

    /// The stable name.
    pub fn as_str(self) -> (res: &'static str)
        ensures
            res@ == self.spec_name(),
    {
        match self {
            FailureSignal::Trap => "trap",
            FailureSignal::Panic => "panic",
            FailureSignal::HostError => "host_error",
            FailureSignal::Either => "either",
        }
    }
}

/// What a failure leaves of the state.
#[derive(Debug, Clone, Copy, PartialEq, Eq, Structural)]
pub enum StateEffect {
    Reverted,
    Unchanged,
    Unspecified,
}

/// Whether a failing call may emit events.
#[derive(Debug, Clone, Copy, PartialEq, Eq, Structural)]
pub enum EventsEmitted {
    Nothing,
    Unspecified,
}

/// Which error payloads a failure accepts.
#[derive(Debug, PartialEq)]
pub struct ErrorCodeRequirement {
    pub policy: ErrorCodePolicy,
    pub allowed: Vec<String>,
}

/// How a failure's payload is judged.
#[derive(Debug, Clone, Copy, PartialEq, Eq, Structural)]
pub enum ErrorCodePolicy {
    SemanticOnly,
    Tolerated,
    ExactRequired,
}

/// The six requirement layers of a bundle.
#[derive(Debug, PartialEq)]
pub struct ProfileDocuments {
    pub methods: MethodsDocument,
    pub authorization: AuthorizationDocument,
    pub events: EventsDocument,
    pub behavior: BehaviorDocument,
    pub invariants: InvariantsDocument,
    pub failures: FailuresDocument,
}

/// The position of the first item whose id is `id`, where there is one.
pub open spec fn first_with_id(ids: Seq<Seq<char>>, id: Seq<char>) -> Option<int> {
    if exists|i: int| 0 <= i < ids.len() && ids[i] == id {
        Some(choose|i: int| 0 <= i < ids.len() && ids[i] == id && forall|j: int| 0 <= j < i ==> ids[j] != id)
    } else {
        None
    }
}

/// The ids of the methods, in order.
pub open spec fn method_ids(methods: Seq<MethodDefinition>) -> Seq<Seq<char>> {
    methods.map_values(|m: MethodDefinition| m.id@)
}

/// The ids of the invariants, in order.
pub open spec fn invariant_ids(invariants: Seq<InvariantDefinition>) -> Seq<Seq<char>> {
    invariants.map_values(|m: InvariantDefinition| m.id@)
}

/// The ids of the failures, in order.
pub open spec fn failure_ids(failures: Seq<FailureDefinition>) -> Seq<Seq<char>> {
    failures.map_values(|m: FailureDefinition| m.id@)
}

/// The ids of the events, in order.
pub open spec fn event_ids(events: Seq<EventDefinition>) -> Seq<Seq<char>> {
    events.map_values(|m: EventDefinition| m.id@)
}

/// Whether the invariant applies after `outcome` of `method`: its scope lists the
/// outcome, and names the method or the wildcard `*`.
pub open spec fn in_scope(rule: InvariantDefinition, method: Seq<char>, outcome: InvariantOutcome) -> bool {
    &&& rule.scope.outcomes@.contains(outcome)
    &&& exists|k: int| 0 <= k < rule.scope.methods@.len()
        && (rule.scope.methods@[k]@ == "*"@ || rule.scope.methods@[k]@ == method)
}

/// The invariants in scope, in declaration order.
pub open spec fn spec_invariants_for(invariants: Seq<InvariantDefinition>, method: Seq<char>, outcome: InvariantOutcome) -> Seq<InvariantDefinition> {
    invariants.filter(|i: InvariantDefinition| in_scope(i, method, outcome))
}

/// The behavioural rules for a method, in declaration order.
pub open spec fn spec_behaviors_for(behaviors: Seq<BehaviorRule>, method: Seq<char>) -> Seq<BehaviorRule> {
    behaviors.filter(|r: BehaviorRule| r.method@ == method)
}

impl ProfileDocuments {
    /// The first method declared with the id.
    pub fn method(&self, id: &str) -> (res: Option<&MethodDefinition>)
        ensures
            match first_with_id(method_ids(self.methods.methods@), id@) {
                Some(i) => res == Some(&self.methods.methods@[i]),
                None => res is None,
            },
    {
        let list = &self.methods.methods;
        let mut i: usize = 0;
        while i < list.len()
            invariant
                list@ == self.methods.methods@,
                i <= list@.len(),
                forall|j: int| 0 <= j < i ==> list@[j].id@ != id@,
            decreases list@.len() - i,
        {
            if str_eq(list[i].id.as_str(), id) {
                proof { lemma_first_found(method_ids(list@), id@, i as int); }
                return Some(&list[i]);
            }
            i = i + 1;
        }
        proof { lemma_none_found(method_ids(list@), id@); }
        None
    }

    /// The first invariant declared with the id.
    pub fn invariant_by_id(&self, id: &str) -> (res: Option<&InvariantDefinition>)
        ensures
            match first_with_id(invariant_ids(self.invariants.invariants@), id@) {
                Some(i) => res == Some(&self.invariants.invariants@[i]),
                None => res is None,
            },
    {
        let list = &self.invariants.invariants;
        let mut i: usize = 0;
        while i < list.len()
            invariant
                list@ == self.invariants.invariants@,
                i <= list@.len(),
                forall|j: int| 0 <= j < i ==> list@[j].id@ != id@,
            decreases list@.len() - i,
        {
            if str_eq(list[i].id.as_str(), id) {
                proof { lemma_first_found(invariant_ids(list@), id@, i as int); }
                return Some(&list[i]);
            }
            i = i + 1;
        }
        proof { lemma_none_found(invariant_ids(list@), id@); }
        None
    }

    /// The first failure declared with the id.
    pub fn failure(&self, id: &str) -> (res: Option<&FailureDefinition>)
        ensures
            match first_with_id(failure_ids(self.failures.failures@), id@) {
                Some(i) => res == Some(&self.failures.failures@[i]),
                None => res is None,
            },
    {
        let list = &self.failures.failures;
        let mut i: usize = 0;
        while i < list.len()
            invariant
                list@ == self.failures.failures@,
                i <= list@.len(),
                forall|j: int| 0 <= j < i ==> list@[j].id@ != id@,
            decreases list@.len() - i,
        {
            if str_eq(list[i].id.as_str(), id) {
                proof { lemma_first_found(failure_ids(list@), id@, i as int); }
                return Some(&list[i]);
            }
            i = i + 1;
        }
        proof { lemma_none_found(failure_ids(list@), id@); }
        None
    }

    /// The first event declared with the id.
    pub fn event(&self, id: &str) -> (res: Option<&EventDefinition>)
        ensures
            match first_with_id(event_ids(self.events.events@), id@) {
                Some(i) => res == Some(&self.events.events@[i]),
                None => res is None,
            },
    {
        let list = &self.events.events;
        let mut i: usize = 0;
        while i < list.len()
            invariant
                list@ == self.events.events@,
                i <= list@.len(),
                forall|j: int| 0 <= j < i ==> list@[j].id@ != id@,
            decreases list@.len() - i,
        {
            if str_eq(list[i].id.as_str(), id) {
                proof { lemma_first_found(event_ids(list@), id@, i as int); }
                return Some(&list[i]);
            }
            i = i + 1;
        }
        proof { lemma_none_found(event_ids(list@), id@); }
        None
    }
}

impl ProfileDocuments {
    /// The invariants that apply after `outcome` of `method`, in declaration order.
    pub fn invariants_for(&self, method: &str, outcome: InvariantOutcome) -> (res: Vec<&InvariantDefinition>)
        ensures
            res@.map_values(|r: &InvariantDefinition| *r) == spec_invariants_for(self.invariants.invariants@, method@, outcome),
    {
        let list = &self.invariants.invariants;
        let mut out: Vec<&InvariantDefinition> = Vec::new();
        let mut i: usize = 0;
        while i < list.len()
            invariant
                list@ == self.invariants.invariants@,
                i <= list@.len(),
                out@.map_values(|r: &InvariantDefinition| *r) == spec_invariants_for(list@.take(i as int), method@, outcome),
            decreases list@.len() - i,
        {
            let rule = &list[i];
            let mut has_outcome = false;
            let mut k: usize = 0;
            while k < rule.scope.outcomes.len()
                invariant
                    k <= rule.scope.outcomes@.len(),
                    has_outcome == exists|j: int| 0 <= j < k && rule.scope.outcomes@[j] == outcome,
                decreases rule.scope.outcomes@.len() - k,
            {
                if rule.scope.outcomes[k] == outcome {
                    has_outcome = true;
                }
                k = k + 1;
            }
            let mut names = false;
            let mut m: usize = 0;
            while m < rule.scope.methods.len()
                invariant
                    m <= rule.scope.methods@.len(),
                    names == exists|j: int| 0 <= j < m
                        && (rule.scope.methods@[j]@ == "*"@ || rule.scope.methods@[j]@ == method@),
                decreases rule.scope.methods@.len() - m,
            {
                if str_eq(rule.scope.methods[m].as_str(), "*") || str_eq(rule.scope.methods[m].as_str(), method) {
                    names = true;
                }
                m = m + 1;
            }
            proof {
                assert(list@.take(i as int + 1).drop_last() =~= list@.take(i as int));
                reveal(Seq::filter);
                assert(has_outcome == rule.scope.outcomes@.contains(outcome));
                assert(names && has_outcome <==> in_scope(*rule, method@, outcome));
            }
            let ghost before = out@;
            if has_outcome && names {
                out.push(rule);
                proof { assert(out@.map_values(|r: &InvariantDefinition| *r) =~= before.map_values(|r: &InvariantDefinition| *r).push(*rule)); }
            }
            i = i + 1;
        }
        proof { assert(list@.take(i as int) =~= list@); }
        out
    }

    /// The behavioural rules for `method`, in declaration order.
    pub fn behaviors_for(&self, method: &str) -> (res: Vec<&BehaviorRule>)
        ensures
            res@.map_values(|r: &BehaviorRule| *r) == spec_behaviors_for(self.behavior.behaviors@, method@),
    {
        let list = &self.behavior.behaviors;
        let mut out: Vec<&BehaviorRule> = Vec::new();
        let mut i: usize = 0;
        while i < list.len()
            invariant
                list@ == self.behavior.behaviors@,
                i <= list@.len(),
                out@.map_values(|r: &BehaviorRule| *r) == spec_behaviors_for(list@.take(i as int), method@),
            decreases list@.len() - i,
        {
            proof {
                assert(list@.take(i as int + 1).drop_last() =~= list@.take(i as int));
                reveal(Seq::filter);
            }
            let ghost before = out@;
            if str_eq(list[i].method.as_str(), method) {
                out.push(&list[i]);
                proof { assert(out@.map_values(|r: &BehaviorRule| *r) =~= before.map_values(|r: &BehaviorRule| *r).push(list@[i as int])); }
            }
            i = i + 1;
        }
        proof { assert(list@.take(i as int) =~= list@); }
        out
    }
}

/// When `ids[i]` is the first occurrence of `id`, it is the one the lookup names.
pub proof fn lemma_first_found(ids: Seq<Seq<char>>, id: Seq<char>, i: int)
    requires
        0 <= i < ids.len(),
        ids[i] == id,
        forall|j: int| 0 <= j < i ==> ids[j] != id,
    ensures
        first_with_id(ids, id) == Some(i),
{
    let k = choose|k: int| 0 <= k < ids.len() && ids[k] == id && forall|j: int| 0 <= j < k ==> ids[j] != id;
    assert(0 <= i < ids.len() && ids[i] == id && forall|j: int| 0 <= j < i ==> ids[j] != id);
    if k < i {
        assert(ids[k] != id);
    } else if k > i {
        assert(ids[i] != id);
    }
}

/// When no id matches, the lookup names nothing.
pub proof fn lemma_none_found(ids: Seq<Seq<char>>, id: Seq<char>)
    requires
        forall|j: int| 0 <= j < ids.len() ==> ids[j] != id,
    ensures
        first_with_id(ids, id) is None,
{
}

/// A lookup finds nothing exactly when no item has the id.
pub proof fn lemma_first_with_id_none(ids: Seq<Seq<char>>, id: Seq<char>)
    ensures
        (first_with_id(ids, id) is None) == !ids.contains(id),
{
}

} // verus!

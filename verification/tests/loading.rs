//! Loading tests: the format version, profile references, a coherent bundle broken in
//! exactly one place at a time, and a corpus of one owned and one shared vector
//! checked against it.

use estamora::bundle::{ProfileBundle, ProfileReference, check_layout, join_path, path_escapes};
use estamora::corpus::{
    EntryKind, Library, MAX_VECTORS, MAX_WALK_DEPTH, Origin, Vector, VectorCorpus, WalkStep, declared_directory,
    declared_files, walk_depth, walk_step,
};
use estamora::expr::{Literal, Predicate, ValueExpr};
use estamora::integer::{IntegerString, is_canonical_integer};
use estamora::profile_model::{
    AuthorizationActor, AuthorizationCoverage, AuthorizationDocument, AuthorizationOutcome, AuthorizationRule,
    BehaviorDocument, BehaviorKind, BehaviorRule, BundleManifest, Compatibility, CoverageMode, ErrorCodePolicy,
    ErrorCodeRequirement, EventBinding, EventCardinality, EventData, EventDataFormat, EventDefinition,
    EventOccurrence, EventTopic, EventsDocument, EventsEmitted, FailureCategory, FailureDefinition,
    FailureExpectation, FailureOutcome, FailureSignal, FailuresDocument, InterfaceCoverage, InvariantDefinition,
    InvariantKind, InvariantOutcome, InvariantScope, InvariantSeverity, InvariantsDocument, Invocation,
    MethodArgument, MethodDefinition, MethodReturn, MethodsDocument, Mutability, PrimitiveType, ProfileDocument,
    ProfileDocuments, ProfileMetadata, ProfileStatus, Provenance, ProvenanceSource, RequirementStatus,
    SpecificationReference, StateEffect, TypeExpr, UpstreamStatus,
};
use estamora::references::validate;
use estamora::spec_version::{self, SpecVersion};
use estamora::taxonomy::{Blame, Diagnostics, ErrorClass, Severity};
use estamora::vector_model::{
    ActorKind, AuthorizationExpectation, AuthorizationPlan, EventExpectation, EventExpectations, ExpectedOutcome,
    ExpectedResult, FixtureActor, Fixtures, LedgerFixture, StateAssertion, StateResourceRef, VectorDocument,
    VectorKind,
};

fn text(s: &str) -> String {
    s.to_owned()
}

fn texts(items: &[&str]) -> Vec<String> {
    items.iter().map(|s| (*s).to_owned()).collect()
}

fn prim(name: PrimitiveType) -> TypeExpr {
    TypeExpr::Prim { name, width: None }
}

/// The entry point of the minimal profile.
fn profile_document() -> ProfileDocument {
    ProfileDocument {
        estamora_spec_version: text("1.0"),
        profile: ProfileMetadata {
            id: text("minimal"),
            version: text("1.0"),
            title: text("A minimal profile"),
            status: ProfileStatus::Draft,
            summary: text("The smallest coherent profile the loader accepts."),
            description: text("Used to test the loader rather than to require anything of a contract."),
            license: text("Apache-2.0"),
            specification: SpecificationReference {
                name: text("TEST-1"),
                title: text("A test document"),
                version: text("1.0"),
                status: UpstreamStatus::Draft,
                url: text("https://example.invalid/test"),
                updated: text("2026-01-01"),
            },
            supersedes: None,
            superseded_by: None,
            maintainers: texts(&["example"]),
            compatibility: Compatibility { interface: InterfaceCoverage::Partial, notes: texts(&["Models one method."]) },
            provenance: Provenance {
                source: ProvenanceSource::UpstreamSpecification,
                derived_from: text("example.invalid@1.0"),
                interpretation_notes: texts(&["Nothing was ambiguous."]),
            },
        },
        includes: BundleManifest {
            methods: text("methods.yaml"),
            authorization: text("authorization.yaml"),
            events: text("events.yaml"),
            behavior: text("behavior.yaml"),
            invariants: text("invariants.yaml"),
            failures: text("failures.yaml"),
            vectors: vec![],
            shared_vectors: vec![],
        },
    }
}

fn balance_method() -> MethodDefinition {
    MethodDefinition {
        id: text("balance"),
        name: text("balance"),
        requirement: RequirementStatus::Required,
        summary: text("Returns the balance of an account."),
        description: None,
        args: vec![MethodArgument {
            name: text("who"),
            type_expr: prim(PrimitiveType::Address),
            semantics: text("The account to read."),
            authorization: None,
        }],
        return_type: MethodReturn { type_expr: prim(PrimitiveType::I128), semantics: text("The balance held.") },
        mutability: Mutability::Readonly,
        invocation: Invocation::ReadOnly,
        authorization: texts(&["balance-requires-no-authorization"]),
        events: texts(&["settled"]),
        failures: texts(&["uninitialized-metadata"]),
        behaviors: texts(&["balance-read-does-not-mutate-state"]),
        notes: vec![],
    }
}

fn authorization_rule() -> AuthorizationRule {
    AuthorizationRule {
        id: text("balance-requires-no-authorization"),
        summary: text("Reading a balance must not require authorization."),
        description: None,
        methods: texts(&["balance"]),
        actor: AuthorizationActor::Nobody,
        coverage: AuthorizationCoverage { mode: CoverageMode::AtMost, arguments: vec![] },
        unauthorized: AuthorizationOutcome::Succeed,
        wrong_actor: AuthorizationOutcome::Succeed,
        replay_sensitive: false,
        notes: vec![],
    }
}

fn settled_event() -> EventDefinition {
    EventDefinition {
        id: text("settled"),
        name: text("settled"),
        requirement: RequirementStatus::Optional,
        summary: text("An event recording that a read settled."),
        description: None,
        occurrence: EventOccurrence::OnSuccess,
        topics: vec![EventTopic {
            index: 0,
            type_expr: prim(PrimitiveType::Symbol),
            binding: EventBinding::Literal { value: Literal::Text(text("settled")) },
            semantics: text("The event discriminator."),
        }],
        data: EventData { format: EventDataFormat::Scalar, fields: vec![] },
        cardinality: EventCardinality { min: 0, max: 1 },
        ordering: vec![],
        correlations: vec![],
        notes: vec![],
    }
}

fn behaviour_rule() -> BehaviorRule {
    BehaviorRule {
        id: text("balance-read-does-not-mutate-state"),
        summary: text("A balance query must not change any contract state."),
        description: None,
        method: text("balance"),
        kind: BehaviorKind::Success,
        preconditions: vec![],
        postconditions: vec![Predicate::Unchanged { target: ValueExpr::Sum { over: text("balances") } }],
        expect_failures: vec![],
        expect_events: vec![],
        forbid_events: texts(&["settled"]),
        invariants: texts(&["balance-non-negative"]),
        notes: vec![],
    }
}

fn non_negative_invariant(title: &str, rationale: &str) -> InvariantDefinition {
    InvariantDefinition {
        id: text("balance-non-negative"),
        title: text(title),
        kind: InvariantKind::Bounds,
        severity: InvariantSeverity::Error,
        summary: text("Every account's balance must be at least zero."),
        description: None,
        scope: InvariantScope { methods: texts(&["*"]), outcomes: vec![InvariantOutcome::Success] },
        resource: Some(text("balances")),
        predicate: Some(Predicate::GreaterOrEqual {
            left: ValueExpr::ResourceMember,
            right: ValueExpr::Literal { value: Literal::Text(text("0")) },
        }),
        direction: None,
        rationale: text(rationale),
        references: vec![],
    }
}

fn uninitialized_failure() -> FailureDefinition {
    FailureDefinition {
        id: text("uninitialized-metadata"),
        category: FailureCategory::Uninitialized,
        summary: text("Token metadata is read before the contract has been initialized."),
        description: None,
        methods: texts(&["balance"]),
        trigger: text("The queried metadata has never been set on the contract."),
        expected: FailureExpectation {
            outcome: FailureOutcome::Failure,
            signal: FailureSignal::Either,
            state_effect: StateEffect::Reverted,
            events_emitted: EventsEmitted::Nothing,
        },
        error_codes: ErrorCodeRequirement { policy: ErrorCodePolicy::SemanticOnly, allowed: vec![] },
        rationale: text("Recorded so the case is covered explicitly rather than left unexamined."),
        references: vec![],
    }
}

/// A complete, coherent set of requirement documents: one method, one authorization
/// rule, one event, one failure, one invariant and one behavioural rule, all referring
/// to each other correctly.
fn documents() -> ProfileDocuments {
    ProfileDocuments {
        methods: MethodsDocument { methods: vec![balance_method()] },
        authorization: AuthorizationDocument { authorization_rules: vec![authorization_rule()] },
        events: EventsDocument { events: vec![settled_event()] },
        behavior: BehaviorDocument { behaviors: vec![behaviour_rule()] },
        invariants: InvariantsDocument {
            invariants: vec![non_negative_invariant(
                "No balance is ever negative",
                "A negative balance would fabricate spending power out of nothing.",
            )],
        },
        failures: FailuresDocument { failures: vec![uninitialized_failure()] },
    }
}

/// The bundle stored at the canonical layout path for its identity.
fn load(document: ProfileDocument, documents: ProfileDocuments) -> Result<ProfileBundle, estamora::taxonomy::Failure> {
    ProfileBundle::assemble(text("/work/profiles/minimal/1.0"), "1.0", "minimal", document, documents)
}

/// Assembles the canonical bundle and returns the message of the refusal it must
/// have produced.
fn refusal(documents: ProfileDocuments) -> String {
    let failure = load(profile_document(), documents).unwrap_err();
    assert_eq!(failure.class(), ErrorClass::ProfileError, "a broken profile is a profile error");
    failure.message().to_owned()
}

#[test]
fn a_supported_format_version_is_accepted() {
    assert_eq!(spec_version::check("1.0").unwrap().to_text(), "1.0");
    assert_eq!(spec_version::check("1.0").unwrap(), SpecVersion::supported());
}

#[test]
fn an_older_minor_format_version_is_still_executable() {
    assert!(spec_version::check("1.0").is_ok());
    assert!(spec_version::check("0.9").is_err(), "a different major is not readable");
}

#[test]
fn a_newer_minor_format_version_is_refused() {
    let failure = spec_version::check("1.1").unwrap_err();
    assert_eq!(failure.class(), ErrorClass::ProfileError);
    assert!(failure.message().contains("newer"), "the message must say which side is newer: {}", failure.message());
    assert_eq!(failure.blame(), Blame::Specification);
}

#[test]
fn a_different_major_format_version_is_refused() {
    let failure = spec_version::check("2.0").unwrap_err();
    assert_eq!(failure.class(), ErrorClass::ProfileError);
    assert!(failure.message().contains("major"));
}

#[test]
fn a_malformed_format_version_is_refused() {
    for candidate in ["1", "1.0.0", "one.zero", "", ".", "1."] {
        let failure = spec_version::check(candidate).unwrap_err();
        assert_eq!(failure.class(), ErrorClass::ProfileError, "{candidate:?} should not be a version");
    }
}

#[test]
fn a_version_keeps_its_two_numbers() {
    let version = SpecVersion::parse("3.14").unwrap();
    assert_eq!(version.major(), 3);
    assert_eq!(version.minor(), 14);
    assert_eq!(version.to_text(), "3.14");
    assert!(SpecVersion::parse("99999999999.0").is_err(), "a component past u32 is refused");
}

#[test]
fn a_coherent_bundle_loads_without_a_single_finding() {
    let bundle = load(profile_document(), documents()).unwrap();
    assert!(
        bundle.diagnostics().is_empty(),
        "a coherent bundle must raise nothing, found {:?}",
        bundle.diagnostics()
    );
    assert!(validate(&documents()).is_empty());
}

#[test]
fn a_complete_bundle_loads_and_reports_its_reference() {
    let bundle = load(profile_document(), documents()).unwrap();
    assert_eq!(bundle.reference(), ProfileReference::new(text("minimal"), text("1.0")));
    assert_eq!(bundle.reference().to_text(), "minimal@1.0");
    assert_eq!(bundle.spec_version(), SpecVersion::supported());
    assert_eq!(bundle.spec_version_text(), "1.0");
    assert_eq!(bundle.root(), "/work/profiles/minimal/1.0");
}

#[test]
fn every_declared_document_is_parsed_rather_than_left_as_text() {
    let bundle = load(profile_document(), documents()).unwrap();
    let documents = bundle.documents();
    assert_eq!(documents.authorization.authorization_rules.len(), 1);
    assert_eq!(documents.events.events.len(), 1);
    assert_eq!(documents.behavior.behaviors.len(), 1);
    assert_eq!(documents.invariants.invariants.len(), 1);
    assert_eq!(documents.failures.failures.len(), 1);
}

#[test]
fn the_method_layer_parses_into_typed_requirements() {
    let bundle = load(profile_document(), documents()).unwrap();
    let methods = bundle.methods();
    assert_eq!(methods.methods.len(), 1);

    let method = &methods.methods[0];
    assert_eq!(method.id, "balance");
    assert_eq!(method.name, "balance");
    assert_eq!(method.requirement, RequirementStatus::Required);
    assert_eq!(method.mutability, Mutability::Readonly);
    assert_eq!(method.args.len(), 1);
    assert_eq!(method.args[0].name, "who");
    assert_eq!(method.args[0].type_expr, TypeExpr::Prim { name: PrimitiveType::Address, width: None });
    assert_eq!(method.return_type.semantics, "The balance held.");
}

#[test]
fn the_scope_query_answers_the_wildcard_rule() {
    let bundle = load(profile_document(), documents()).unwrap();
    let documents = bundle.documents();
    assert_eq!(documents.invariants_for("balance", InvariantOutcome::Success).len(), 1);
    assert_eq!(documents.invariants_for("balance", InvariantOutcome::Failure).len(), 0);
    assert_eq!(
        documents.invariants_for("transfer", InvariantOutcome::Success).len(),
        1,
        "the wildcard covers a method that is not declared"
    );
    assert_eq!(documents.behaviors_for("balance").len(), 1);
    assert_eq!(documents.behaviors_for("transfer").len(), 0);
}

#[test]
fn lookups_by_identifier_find_the_declared_entry() {
    let documents = documents();
    assert_eq!(documents.method("balance").unwrap().name, "balance");
    assert!(documents.method("transfer").is_none());
    assert_eq!(documents.invariant_by_id("balance-non-negative").unwrap().kind, InvariantKind::Bounds);
    assert_eq!(documents.failure("uninitialized-metadata").unwrap().category, FailureCategory::Uninitialized);
    assert_eq!(documents.event("settled").unwrap().cardinality, EventCardinality { min: 0, max: 1 });
    assert!(documents.event("approve").is_none());
}

#[test]
fn a_document_declared_outside_the_bundle_is_refused() {
    let mut document = profile_document();
    document.includes.events = text("../../../../etc/passwd");
    let failure = load(document, documents()).unwrap_err();
    assert_eq!(failure.class(), ErrorClass::ProfileError);
    assert!(failure.message().contains("outside the bundle"), "the message must say the path escapes: {}", failure.message());
    assert!(failure.message().contains("events"));
}

#[test]
fn only_a_parent_component_or_an_absolute_path_escapes() {
    assert!(path_escapes("../x.yaml"));
    assert!(path_escapes("a/../../x.yaml"));
    assert!(path_escapes("/etc/passwd"));
    assert!(path_escapes(".."));
    assert!(!path_escapes("methods.yaml"));
    assert!(!path_escapes("sub/..methods.yaml"));
    assert!(!path_escapes("a..b/c.yaml"));
    assert_eq!(join_path("/work/bundle", "methods.yaml"), "/work/bundle/methods.yaml");
    assert_eq!(join_path("/work/bundle/", "methods.yaml"), "/work/bundle/methods.yaml");
    assert_eq!(join_path("", "methods.yaml"), "methods.yaml");
}

#[test]
fn a_bundle_whose_directory_disagrees_with_its_identity_is_refused() {
    let failure = ProfileBundle::assemble(text("/work/sep-41/1.0"), "1.0", "sep-41", profile_document(), documents())
        .unwrap_err();
    assert_eq!(failure.class(), ErrorClass::ProfileError);
    let message = failure.message();
    assert!(message.contains("declares") && message.contains("sep-41/1.0"), "the message must name both identities: {message}");
}

#[test]
fn a_bundle_outside_the_canonical_layout_loads_with_a_warning() {
    let bundle =
        ProfileBundle::assemble(text("/work/somewhere-else"), "somewhere-else", "work", profile_document(), documents())
            .unwrap();
    assert!(!bundle.diagnostics().is_empty(), "a non-canonical location must be reported");
    assert_eq!(bundle.diagnostics()[0].severity(), Severity::Warning);
    assert_eq!(bundle.reference().id, "minimal");
}

#[test]
fn the_layout_check_adds_exactly_one_finding_or_none() {
    let mut diagnostics = Diagnostics::new();
    check_layout("/p/minimal/1.0", "1.0", "minimal", &profile_document(), &mut diagnostics);
    assert!(diagnostics.is_empty());
    check_layout("/p/other/1.0", "1.0", "other", &profile_document(), &mut diagnostics);
    assert_eq!(diagnostics.len(), 1);
    assert!(diagnostics.has_errors());
    assert_eq!(
        diagnostics.findings()[0].message(),
        "the bundle is stored under other/1.0 but declares minimal@1.0; resolving minimal@1.0 by path would not reach this directory"
    );
}

#[test]
fn a_format_version_this_runner_does_not_implement_refuses_the_bundle() {
    let mut document = profile_document();
    document.estamora_spec_version = text("1.1");
    let failure = load(document, documents()).unwrap_err();
    assert_eq!(failure.class(), ErrorClass::ProfileError);
    assert!(failure.message().contains("newer"));
}

#[test]
fn a_reference_without_a_version_is_refused() {
    let failure = ProfileReference::parse("sep-41").unwrap_err();
    assert_eq!(failure.class(), ErrorClass::ProfileError);
    assert!(failure.message().contains("ID@VERSION"));

    assert_eq!(ProfileReference::parse("sep-41@1.0").unwrap(), ProfileReference::new(text("sep-41"), text("1.0")));
    for candidate in ["@1.0", "sep-41@"] {
        assert!(ProfileReference::parse(candidate).is_err(), "{candidate:?}");
    }
}

#[test]
fn a_method_referring_to_an_unknown_failure_is_refused() {
    let mut documents = documents();
    documents.methods.methods[0].failures = texts(&["no-such-failure"]);
    let message = refusal(documents);
    assert!(message.contains("no-such-failure"), "the message must name the unresolved reference: {message}");
}

#[test]
fn a_behaviour_rule_naming_an_unknown_event_is_refused() {
    let mut documents = documents();
    documents.behavior.behaviors[0].forbid_events = texts(&["no-such-event"]);
    let message = refusal(documents);
    assert!(message.contains("no-such-event"), "{message}");
}

#[test]
fn a_behaviour_rule_naming_an_unknown_invariant_is_refused() {
    let mut documents = documents();
    documents.behavior.behaviors[0].invariants = texts(&["no-such-invariant"]);
    let message = refusal(documents);
    assert!(message.contains("no-such-invariant"), "{message}");
}

#[test]
fn an_event_correlating_into_an_unknown_invariant_is_refused() {
    let mut documents = documents();
    documents.events.events[0].correlations = texts(&["no-such-invariant"]);
    let message = refusal(documents);
    assert!(message.contains("no-such-invariant"), "{message}");
}

#[test]
fn a_duplicate_identifier_is_refused() {
    let mut documents = documents();
    documents.invariants.invariants.push(non_negative_invariant(
        "A second declaration of the same invariant",
        "Declared twice on purpose, to prove the loader refuses the ambiguity.",
    ));
    let message = refusal(documents);
    assert!(message.contains("more than once"), "the message must say the id is declared twice: {message}");
}

#[test]
fn an_event_whose_cardinality_can_never_be_met_is_refused() {
    let mut documents = documents();
    documents.events.events[0].cardinality = EventCardinality { min: 2, max: 1 };
    let message = refusal(documents);
    assert!(message.contains("no contract can satisfy"), "the message must say no contract could satisfy it: {message}");
}

#[test]
fn an_invariant_naming_a_resource_it_does_not_range_over_is_refused() {
    let mut documents = documents();
    documents.invariants.invariants[0].kind = InvariantKind::AuthorizationBlocksMutation;
    let message = refusal(documents);
    assert!(
        message.contains("does not range over one") || message.contains("supplies a predicate"),
        "the message must explain the mismatch: {message}"
    );
}

#[test]
fn a_success_rule_that_expects_a_failure_is_refused() {
    let mut documents = documents();
    documents.behavior.behaviors[0].expect_failures = texts(&["uninitialized-metadata"]);
    let message = refusal(documents);
    assert!(message.contains("must succeed but expects a failure"), "the message must name the contradiction: {message}");
}

#[test]
fn an_authorization_rule_naming_an_argument_the_method_lacks_is_refused() {
    let mut documents = documents();
    documents.authorization.authorization_rules[0].actor =
        AuthorizationActor::Argument { argument: text("from"), on_behalf_of: false };
    let message = refusal(documents);
    assert!(message.contains("\"from\""), "the message must name the argument: {message}");
}

#[test]
fn an_exact_coverage_rule_covering_nothing_is_refused() {
    let mut documents = documents();
    documents.authorization.authorization_rules[0].coverage.mode = CoverageMode::Exact;
    let message = refusal(documents);
    assert!(message.contains("demand no authorization"), "the message must explain the consequence: {message}");
}

#[test]
fn a_failure_that_tolerates_payloads_under_the_semantic_policy_is_refused() {
    let mut documents = documents();
    documents.failures.failures[0].error_codes.allowed = texts(&["Error(1)"]);
    let message = refusal(documents);
    assert!(message.contains("never be consulted"), "the message must say the list is dead text: {message}");
}

#[test]
fn an_authorization_failure_signalled_by_the_host_is_refused() {
    let mut documents = documents();
    documents.failures.failures[0].category = FailureCategory::WrongActor;
    documents.failures.failures[0].expected.signal = FailureSignal::HostError;
    let message = refusal(documents);
    assert!(message.contains("contract's own check"), "the message must explain why the signal is wrong: {message}");
}

#[test]
fn every_defect_is_reported_not_only_the_first() {
    let mut documents = documents();
    documents.methods.methods[0].failures = texts(&["no-such-failure"]);
    documents.behavior.behaviors[0].forbid_events = texts(&["no-such-event"]);
    let diagnostics = validate(&documents);
    assert_eq!(diagnostics.len(), 2);
    assert!(diagnostics.findings().iter().all(|d| d.severity() == Severity::Error));
    assert!(diagnostics.findings()[0].message().contains("no-such-failure"));
    assert!(diagnostics.findings()[1].message().contains("no-such-event"));
}

fn literal(value: &str) -> ValueExpr {
    ValueExpr::Literal { value: Literal::Text(text(value)) }
}

fn actor(name: &str) -> ValueExpr {
    ValueExpr::Actor { actor: text(name) }
}

fn account(name: &str) -> FixtureActor {
    FixtureActor { name: text(name), kind: ActorKind::Account, reference: None, description: None }
}

fn ledger() -> LedgerFixture {
    LedgerFixture { sequence: 1000, timestamp: text("2026-01-15T12:00:00Z") }
}

/// The bundle of the corpus tests: the coherent profile, declaring one vector
/// directory of its own and one shared family.
fn corpus_bundle() -> ProfileBundle {
    let mut document = profile_document();
    document.includes.vectors = texts(&["balance"]);
    document.includes.shared_vectors = texts(&["common"]);
    ProfileBundle::assemble(text("/work/minimal/1.0"), "1.0", "minimal", document, documents()).unwrap()
}

/// A vector the bundle owns.
fn owned() -> VectorDocument {
    VectorDocument {
        schema: None,
        id: text("balance-reports-funded-balance"),
        profile: text("minimal"),
        profile_version: text("1.0"),
        title: text("A funded account reports its balance"),
        description: text("Alice holds 1000 and the balance query must report exactly that value."),
        kind: VectorKind::Positive,
        method: text("balance"),
        tags: texts(&["balance", "positive"]),
        fixtures: Fixtures {
            actors: vec![account("alice"), account("dave")],
            balances: vec![(text("alice"), IntegerString(1000))],
            allowances: vec![],
            total_supply: None,
            ledger: ledger(),
            authorization: vec![(text("alice"), true), (text("dave"), true)],
        },
        inputs: vec![(text("who"), actor("alice"))],
        authorization: AuthorizationPlan {
            actors: vec![],
            expected: AuthorizationExpectation::NotRequired,
            substituted_for: vec![],
        },
        expected: ExpectedOutcome {
            outcome: ExpectedResult::Success,
            failure: None,
            failure_category: None,
            return_value: Some(literal("1000")),
            state_assertions: vec![StateAssertion {
                id: text("funded-account-reads-its-balance"),
                description: Some(text("The funded account reports the balance it holds.")),
                resource: StateResourceRef::Balance { account: text("alice") },
                predicate: Predicate::Equal {
                    left: ValueExpr::Read { method: text("balance"), args: vec![actor("alice")] },
                    right: literal("1000"),
                },
            }],
            events: EventExpectations { required: vec![], forbidden: texts(&["settled"]) },
            invariants: texts(&["balance-non-negative"]),
        },
        assertions: vec![],
        rationale: text("Establishes that a funded account reads back the balance it holds."),
        references: texts(&["https://example.invalid/test"]),
    }
}

/// A profile-independent vector the bundle consumes.
fn shared() -> VectorDocument {
    VectorDocument {
        schema: None,
        id: text("unknown-account-reads-zero"),
        profile: text("*"),
        profile_version: text("1.0"),
        title: text("An account with no entry reads as zero"),
        description: text("Dave has never held a balance, and the read must report zero rather than failing."),
        kind: VectorKind::Boundary,
        method: text("balance"),
        tags: texts(&["balance", "boundary"]),
        fixtures: Fixtures {
            actors: vec![account("dave")],
            balances: vec![],
            allowances: vec![],
            total_supply: None,
            ledger: ledger(),
            authorization: vec![(text("dave"), true)],
        },
        inputs: vec![(text("who"), actor("dave"))],
        authorization: AuthorizationPlan {
            actors: vec![],
            expected: AuthorizationExpectation::NotRequired,
            substituted_for: vec![],
        },
        expected: ExpectedOutcome {
            outcome: ExpectedResult::Success,
            failure: None,
            failure_category: None,
            return_value: Some(literal("0")),
            state_assertions: vec![],
            events: EventExpectations { required: vec![], forbidden: texts(&["settled"]) },
            invariants: vec![],
        },
        assertions: vec![],
        rationale: text("A caller must be able to read a fresh account before and after funding it."),
        references: texts(&["https://example.invalid/test"]),
    }
}

fn source(path: &str, library: Library, relative: &[&str], document: VectorDocument) -> Vector {
    Vector {
        path: text(path),
        key: path.split('/').map(str::to_owned).collect(),
        origin: Origin::new(library, &texts(relative)),
        document,
    }
}

/// The two vectors as they were read: the shared one first, so that ordering is the
/// corpus's own work.
fn sources(owned: VectorDocument, shared: VectorDocument) -> Vec<Vector> {
    vec![
        source("/work/shared/common/addresses/unknown.yaml", Library::Shared, &["common", "addresses", "unknown.yaml"], shared),
        source("/work/minimal/1.0/vectors/balance/funded.yaml", Library::Bundle, &["balance", "funded.yaml"], owned),
    ]
}

fn corpus_refusal(owned: VectorDocument, shared: VectorDocument) -> String {
    let failure = VectorCorpus::assemble(&corpus_bundle(), sources(owned, shared)).unwrap_err();
    assert_eq!(failure.class(), ErrorClass::VectorError, "a broken corpus is a vector error");
    failure.message().to_owned()
}

#[test]
fn a_declared_corpus_loads_both_the_owned_and_the_shared_vectors() {
    let corpus = VectorCorpus::assemble(&corpus_bundle(), sources(owned(), shared())).unwrap();
    assert_eq!(corpus.len(), 2);
    assert!(corpus.by_id("balance-reports-funded-balance").is_some());
    assert!(corpus.by_id("unknown-account-reads-zero").is_some());
    assert!(corpus.by_id("unknown-account-reads-zero").unwrap().is_profile_independent());
    assert!(!corpus.by_id("balance-reports-funded-balance").unwrap().is_profile_independent());
    assert!(corpus.diagnostics().is_empty());
    assert!(corpus.skipped().is_empty());
}

#[test]
fn loading_the_same_tree_twice_gives_the_same_order() {
    let ids = |vectors: Vec<Vector>| -> Vec<String> {
        VectorCorpus::assemble(&corpus_bundle(), vectors).unwrap().vectors().iter().map(|v| v.id().to_owned()).collect()
    };
    let first = ids(sources(owned(), shared()));
    let mut reversed = sources(owned(), shared());
    reversed.reverse();
    let second = ids(reversed);
    assert_eq!(first, second);
    assert_eq!(first.len(), 2);
    assert_eq!(first[0], "balance-reports-funded-balance", "ordered by path, whatever order they were read in");
}

#[test]
fn a_vector_read_twice_is_kept_once() {
    let mut vectors = sources(owned(), shared());
    vectors.push(source("/work/minimal/1.0/vectors/balance/funded.yaml", Library::Bundle, &["balance", "funded.yaml"], owned()));
    let corpus = VectorCorpus::assemble(&corpus_bundle(), vectors).unwrap();
    assert_eq!(corpus.len(), 2);
}

#[test]
fn an_origin_names_its_library_and_path() {
    let origin = Origin::new(Library::Shared, &texts(&["common", "addresses", "unknown.yaml"]));
    assert_eq!(origin.to_text(), "shared:common/addresses/unknown.yaml");
    assert_eq!(Origin::new(Library::Bundle, &texts(&["balance", "funded.yaml"])).to_text(), "bundle:balance/funded.yaml");
}

#[test]
fn a_profile_independent_vector_whose_method_is_absent_is_excluded_not_refused() {
    let mut shared = shared();
    shared.method = text("deposit");
    let corpus = VectorCorpus::assemble(&corpus_bundle(), sources(owned(), shared)).unwrap();
    assert_eq!(corpus.len(), 1);
    assert_eq!(corpus.skipped().len(), 1);
    assert_eq!(corpus.skipped()[0].1, "deposit");
    assert!(!corpus.diagnostics().is_empty(), "an excluded vector must be reported rather than silently dropped");
}

#[test]
fn a_vector_declaring_another_profile_is_refused() {
    let mut owned = owned();
    owned.profile = text("sep-41");
    let message = corpus_refusal(owned, shared());
    assert!(message.contains("declares profile") && message.contains("sep-41"), "{message}");
}

#[test]
fn a_vector_written_against_another_version_is_refused() {
    let mut owned = owned();
    owned.profile_version = text("2.0");
    let message = corpus_refusal(owned, shared());
    assert!(message.contains("version"), "{message}");
}

#[test]
fn an_input_the_method_does_not_take_is_refused() {
    let mut owned = owned();
    owned.inputs.push((text("extra"), literal("1")));
    let message = corpus_refusal(owned, shared());
    assert!(message.contains("\"extra\""), "{message}");
}

#[test]
fn an_argument_the_vector_does_not_supply_is_refused() {
    let mut owned = owned();
    owned.inputs = vec![];
    let message = corpus_refusal(owned, shared());
    assert!(message.contains("\"who\""), "{message}");
}

#[test]
fn an_unknown_failure_is_refused() {
    let mut owned = owned();
    owned.expected.outcome = ExpectedResult::Failure;
    owned.expected.failure = Some(text("no-such-failure"));
    let message = corpus_refusal(owned, shared());
    assert!(message.contains("no-such-failure"), "{message}");
}

#[test]
fn an_unknown_invariant_is_refused() {
    let mut owned = owned();
    owned.expected.invariants = texts(&["no-such-invariant"]);
    let message = corpus_refusal(owned, shared());
    assert!(message.contains("no-such-invariant"), "{message}");
}

#[test]
fn an_unknown_event_is_refused() {
    let mut owned = owned();
    owned.expected.events.forbidden = texts(&["no-such-event"]);
    let message = corpus_refusal(owned, shared());
    assert!(message.contains("no-such-event"), "{message}");
}

#[test]
fn a_reference_to_an_undeclared_actor_is_refused() {
    let mut owned = owned();
    owned.expected.state_assertions[0].predicate = Predicate::Equal {
        left: ValueExpr::Read { method: text("balance"), args: vec![actor("carol")] },
        right: literal("1000"),
    };
    let message = corpus_refusal(owned, shared());
    assert!(message.contains("carol"), "{message}");
}

#[test]
fn a_read_of_an_undeclared_method_is_refused() {
    let mut owned = owned();
    owned.expected.state_assertions[0].predicate = Predicate::Equal {
        left: ValueExpr::Read { method: text("allowance"), args: vec![actor("alice")] },
        right: literal("1000"),
    };
    let message = corpus_refusal(owned, shared());
    assert!(message.contains("allowance"), "{message}");
}

#[test]
fn a_success_vector_that_names_a_failure_is_refused() {
    let mut owned = owned();
    owned.expected.failure = Some(text("uninitialized-metadata"));
    let message = corpus_refusal(owned, shared());
    assert!(message.contains("both outcomes at once"), "{message}");
}

#[test]
fn a_failure_vector_that_names_no_failure_is_refused() {
    let mut owned = owned();
    owned.expected.outcome = ExpectedResult::Failure;
    let message = corpus_refusal(owned, shared());
    assert!(message.contains("any failure"), "{message}");
}

#[test]
fn a_failure_vector_that_requires_an_event_is_refused() {
    let mut owned = owned();
    owned.expected.outcome = ExpectedResult::Failure;
    owned.expected.failure_category = Some(FailureCategory::InvalidArgument);
    owned.expected.events =
        EventExpectations { required: vec![EventExpectation { event: text("settled"), topics: vec![], data: vec![] }], forbidden: vec![] };
    let message = corpus_refusal(owned, shared());
    assert!(message.contains("must not have produced one"), "{message}");
}

#[test]
fn a_duplicate_vector_identifier_is_refused() {
    let mut shared = shared();
    shared.id = text("balance-reports-funded-balance");
    let message = corpus_refusal(owned(), shared);
    assert!(message.contains("two vectors declare the identifier"), "{message}");
}

#[test]
fn a_duplicate_fixture_actor_is_refused() {
    let mut owned = owned();
    owned.fixtures.actors = vec![account("alice"), account("alice")];
    let message = corpus_refusal(owned, shared());
    assert!(message.contains("more than once"), "{message}");
}

#[test]
fn a_non_canonical_amount_is_refused() {
    let problem = IntegerString::from_text("01000").unwrap_err();
    assert!(problem.contains("canonical"), "{problem}");
    assert_eq!(IntegerString::from_text("1000").unwrap(), IntegerString(1000));
    assert_eq!(IntegerString::from_text("-5").unwrap().get(), -5);
    assert!(IntegerString::from_text("-0").is_err());
    assert!(IntegerString::from_text("+5").is_err());
    assert!(IntegerString::from_text("").is_err());
    assert!(IntegerString::from_text("1 000").is_err());
    assert!(is_canonical_integer("0"));
    assert!(!is_canonical_integer("00"));
    assert_eq!(IntegerString::new(-42).to_text(), "-42");
}

#[test]
fn an_amount_past_the_widest_integer_is_refused() {
    assert_eq!(IntegerString::from_text("170141183460469231731687303715884105727").unwrap().get(), i128::MAX);
    assert_eq!(IntegerString::from_text("-170141183460469231731687303715884105728").unwrap().get(), i128::MIN);
    assert!(IntegerString::from_text("170141183460469231731687303715884105728").is_err());
}

#[test]
fn tags_select_a_subset_conjunctively() {
    let corpus = VectorCorpus::assemble(&corpus_bundle(), sources(owned(), shared())).unwrap();
    assert_eq!(corpus.matching(&texts(&["balance"])).len(), 2);
    assert_eq!(corpus.matching(&texts(&["balance", "boundary"])).len(), 1);
    assert_eq!(corpus.matching(&texts(&["balance", "no-such-tag"])).len(), 0);
    assert_eq!(corpus.matching(&vec![]).len(), 2, "no tag selects everything");
    assert_eq!(corpus.for_method("balance").len(), 2);
    assert_eq!(corpus.for_method("transfer").len(), 0);
}

#[test]
fn the_ledger_timestamp_parses_to_the_declared_instant() {
    assert_eq!(ledger().timestamp_unix().unwrap(), 1_768_478_400);
    let malformed = LedgerFixture { sequence: 1000, timestamp: text("15 January 2026") };
    let failure = malformed.timestamp_unix().unwrap_err();
    assert_eq!(failure.class(), ErrorClass::VectorError);
    let early = LedgerFixture { sequence: 1, timestamp: text("1969-12-31T23:59:59Z") };
    assert!(early.timestamp_unix().unwrap_err().message().contains("before the Unix epoch"));
}

#[test]
fn every_value_reads_back_from_its_one_accepted_spelling() {
    for value in [0_i128, 7, -7, 10, -10, 1000, i128::MAX, i128::MIN] {
        let spelled = IntegerString::new(value).to_text();
        assert!(is_canonical_integer(&spelled), "{spelled}");
        assert_eq!(IntegerString::from_text(&spelled).unwrap().get(), value);
    }
    for other in ["-0", "007", "+7", "-010", ""] {
        assert!(!is_canonical_integer(other), "{other}");
    }
}

#[test]
fn every_failure_category_has_a_name_of_its_own() {
    let all = [
        FailureCategory::InsufficientBalance,
        FailureCategory::InsufficientAllowance,
        FailureCategory::Unauthorized,
        FailureCategory::MissingAuthorization,
        FailureCategory::WrongActor,
        FailureCategory::InvalidAmount,
        FailureCategory::InvalidAddress,
        FailureCategory::InvalidArgument,
        FailureCategory::InvalidState,
        FailureCategory::Uninitialized,
        FailureCategory::Expired,
        FailureCategory::UnsupportedOperation,
        FailureCategory::ArithmeticOverflow,
        FailureCategory::Custom,
    ];
    for (i, a) in all.iter().enumerate() {
        for b in &all[i + 1..] {
            assert_ne!(a.as_str(), b.as_str());
        }
    }
    assert_eq!(FailureCategory::InsufficientBalance.as_str(), "insufficient_balance");
    assert_eq!(FailureCategory::UnsupportedOperation.as_str(), "unsupported_operation");
    assert_eq!(FailureCategory::Custom.as_str(), "custom");
}

#[test]
fn the_walk_descends_collects_yaml_and_passes_over_the_rest() {
    assert_eq!(walk_step("v", 2, EntryKind::Directory, None, 0).unwrap(), WalkStep::Descend(3));
    assert_eq!(walk_step("v", 0, EntryKind::File, Some("yaml"), 5).unwrap(), WalkStep::Collect);
    assert_eq!(walk_step("v", 0, EntryKind::File, Some("yml"), 5).unwrap(), WalkStep::Pass);
    assert_eq!(walk_step("v", 0, EntryKind::File, None, 5).unwrap(), WalkStep::Pass);
    assert_eq!(walk_step("v", 0, EntryKind::Other, Some("yaml"), 5).unwrap(), WalkStep::Pass);
}

#[test]
fn a_tree_too_deep_or_too_large_is_refused() {
    assert!(walk_depth("vectors/transfer", MAX_WALK_DEPTH).is_ok());
    let deep = walk_depth("vectors/transfer", MAX_WALK_DEPTH + 1).unwrap_err();
    assert_eq!(deep.class(), ErrorClass::VectorError);
    assert_eq!(
        deep.message(),
        "the vector tree below vectors/transfer is deeper than 8 levels, which the layout does not reach"
    );
    let large = walk_step("vectors/transfer", 0, EntryKind::File, Some("yaml"), MAX_VECTORS).unwrap_err();
    assert_eq!(large.message(), "the vector tree below vectors/transfer holds more than 10000 vectors");
}

#[test]
fn a_declared_directory_must_exist_and_hold_vectors() {
    assert!(declared_directory("transfer", "the bundle's own vectors", "b/vectors/transfer", true).is_ok());
    let missing = declared_directory("transfer", "the bundle's own vectors", "b/vectors/transfer", false).unwrap_err();
    assert_eq!(missing.class(), ErrorClass::VectorError);
    assert!(missing.message().starts_with(
        "the profile declares \"transfer\" under the bundle's own vectors, but b/vectors/transfer is not a directory"
    ));
    assert_eq!(missing.context_value("declared"), Some("transfer"));
    assert_eq!(missing.context_value("path"), Some("b/vectors/transfer"));

    assert!(declared_files("transfer", "the shared vector library", "s/transfer", 1).is_ok());
    let empty = declared_files("transfer", "the shared vector library", "s/transfer", 0).unwrap_err();
    assert_eq!(
        empty.message(),
        "the profile declares \"transfer\" under the shared vector library, but s/transfer holds no vectors"
    );
    assert_eq!(empty.context_value("declared"), Some("transfer"));
}

//! Cross-reference validation.
//!
//! Every defect worth catching in a profile is a reference that does not resolve: a
//! behavioural rule names a failure that no longer exists, an authorization rule
//! covers an argument the method does not take, an event correlates into an
//! invariant that was renamed. Each is a requirement that silently stopped applying.
//! Only resolvability is decided here; whether a requirement is right is a question
//! for the people who write the profile.
use vstd::prelude::*;

use crate::profile_model::{
    AuthorizationActor, AuthorizationOutcome, AuthorizationRule, BehaviorKind, BehaviorRule, CoverageMode,
    ErrorCodePolicy, EventDefinition, EventTopic, FailureDefinition, FailureSignal, InvariantDefinition,
    InvariantKind, MethodDefinition, ProfileDocuments, RequirementStatus, event_ids, failure_ids, invariant_ids,
    method_ids, spec_behaviors_for,
};
use crate::taxonomy::{Diagnostic, Diagnostics, ErrorClass, Finding, error_finding, warning_finding};
use crate::text::{contains_text, debug_text, decimal_text, owned, push_str, quoted, spec_decimal, str_eq, texts};

verus! {

/// The highest topic index the format permits, bounded by Soroban's limit on
/// contract event topics.
pub const MAX_TOPIC_INDEX: u32 = 7;

/// A profile defect with two named facts.
pub open spec fn defect(message: Seq<char>, k0: Seq<char>, v0: Seq<char>, k1: Seq<char>, v1: Seq<char>) -> Finding {
    error_finding(ErrorClass::ProfileError, message, seq![(k0, v0), (k1, v1)])
}

/// A profile finding that is only reported.
pub open spec fn caution(message: Seq<char>) -> Finding {
    warning_finding(ErrorClass::ProfileError, message)
}

/// The findings of every item, one item after another.
pub open spec fn concat_map<A>(items: Seq<A>, f: spec_fn(A) -> Seq<Finding>) -> Seq<Finding>
    decreases items.len(),
{
    if items.len() == 0 {
        seq![]
    } else {
        concat_map(items.drop_last(), f) + f(items.last())
    }
}

/// Checking one more item adds that item's findings.
pub proof fn lemma_concat_map_step<A>(items: Seq<A>, f: spec_fn(A) -> Seq<Finding>, i: int)
    requires
        0 <= i < items.len(),
    ensures
        concat_map(items.take(i + 1), f) == concat_map(items.take(i), f) + f(items[i]),
{
    assert(items.take(i + 1).drop_last() =~= items.take(i));
}

/// The names that repeat an earlier one, in order.
pub open spec fn repeats(names: Seq<Seq<char>>) -> Seq<Seq<char>>
    decreases names.len(),
{
    if names.len() == 0 {
        seq![]
    } else if names.drop_last().contains(names.last()) {
        repeats(names.drop_last()).push(names.last())
    } else {
        repeats(names.drop_last())
    }
}

/// What an unresolvable reference is reported as.
pub open spec fn unknown_finding(owner: Seq<char>, what: Seq<char>, id: Seq<char>) -> Finding {
    defect(owner + " refers to "@ + what + " "@ + debug_text(id) + ", which the profile does not declare"@,
        "owner"@, owner, "reference"@, id)
}

/// The findings for every unresolvable reference among `refs`.
pub open spec fn unknown_findings(known: Seq<Seq<char>>, refs: Seq<Seq<char>>, what: Seq<char>, owner: Seq<char>) -> Seq<Finding>
    decreases refs.len(),
{
    if refs.len() == 0 {
        seq![]
    } else if known.contains(refs.last()) {
        unknown_findings(known, refs.drop_last(), what, owner)
    } else {
        unknown_findings(known, refs.drop_last(), what, owner).push(unknown_finding(owner, what, refs.last()))
    }
}

/// What a twice-declared identifier is reported as.
pub open spec fn duplicate_finding(document: Seq<char>, id: Seq<char>) -> Finding {
    defect(document + " declares the id "@ + debug_text(id) + " more than once; every reference to it is ambiguous"@,
        "document"@, document, "id"@, id)
}

/// Records an error-severity profile finding with two named facts.
fn fail(diagnostics: &mut Diagnostics, message: String, k0: &str, v0: &str, k1: &str, v1: &str)
    ensures
        final(diagnostics)@ == old(diagnostics)@.push(defect(message@, k0@, v0@, k1@, v1@)),
{
    let d = Diagnostic::error(ErrorClass::ProfileError, message).with_context(k0, owned(v0)).with_context(k1, owned(v1));
    proof { assert(d@.context =~= seq![(k0@, v0@), (k1@, v1@)]); }
    diagnostics.push(d);
}

/// Records a warning-severity profile finding.
fn warn(diagnostics: &mut Diagnostics, message: String)
    ensures
        final(diagnostics)@ == old(diagnostics)@.push(caution(message@)),
{
    diagnostics.warning(ErrorClass::ProfileError, message);
}

/// Reports every identifier in `ids` that repeats an earlier one.
fn declared(ids: &Vec<String>, document: &str, diagnostics: &mut Diagnostics)
    ensures
        final(diagnostics)@ == old(diagnostics)@ + repeats(texts(ids@)).map_values(|id: Seq<char>| duplicate_finding(document@, id)),
{
    let ghost start = diagnostics@;
    let mut seen: Vec<String> = Vec::new();
    let mut i: usize = 0;
    while i < ids.len()
        invariant
            i <= ids@.len(),
            texts(seen@) == texts(ids@).take(i as int),
            diagnostics@ == start + repeats(texts(ids@).take(i as int)).map_values(|id: Seq<char>| duplicate_finding(document@, id)),
        decreases ids@.len() - i,
    {
        let ghost names = texts(ids@).take(i as int + 1);
        proof {
            assert(names.drop_last() =~= texts(ids@).take(i as int));
            assert(names.last() == ids@[i as int]@);
        }
        let id = ids[i].as_str();
        if contains_text(&seen, id) {
            let mut message = owned(document);
            push_str(&mut message, " declares the id ");
            push_str(&mut message, quoted(id).as_str());
            push_str(&mut message, " more than once; every reference to it is ambiguous");
            fail(diagnostics, message, "document", document, "id", id);
            proof {
                assert(repeats(names) == repeats(names.drop_last()).push(id@));
                assert(repeats(names).map_values(|id: Seq<char>| duplicate_finding(document@, id))
                    =~= repeats(names.drop_last()).map_values(|id: Seq<char>| duplicate_finding(document@, id)).push(duplicate_finding(document@, id@)));
            }
        }
        let ghost before = seen@;
        seen.push(ids[i].clone());
        proof { assert(texts(seen@) =~= texts(before).push(ids@[i as int]@)); }
        i = i + 1;
    }
    proof { assert(texts(ids@).take(i as int) =~= texts(ids@)); }
}

/// Reports `id` when `known` does not declare it.
fn require_known(diagnostics: &mut Diagnostics, known: &Vec<String>, id: &str, what: &str, owner: &str)
    ensures
        final(diagnostics)@ == old(diagnostics)@ + unknown_findings(texts(known@), seq![id@], what@, owner@),
{
    let ghost start = diagnostics@;
    proof {
        assert(seq![id@].drop_last() =~= Seq::<Seq<char>>::empty());
        assert(unknown_findings(texts(known@), Seq::<Seq<char>>::empty(), what@, owner@) =~= Seq::<Finding>::empty());
    }
    if !contains_text(known, id) {
        let mut message = owned(owner);
        push_str(&mut message, " refers to ");
        push_str(&mut message, what);
        push_str(&mut message, " ");
        push_str(&mut message, quoted(id).as_str());
        push_str(&mut message, ", which the profile does not declare");
        fail(diagnostics, message, "owner", owner, "reference", id);
        proof { assert(diagnostics@ =~= start + seq![unknown_finding(owner@, what@, id@)]); }
    } else {
        proof { assert(diagnostics@ =~= start + Seq::<Finding>::empty()); }
    }
}

/// Reports every reference in `refs` that `known` does not declare.
fn require_all(diagnostics: &mut Diagnostics, known: &Vec<String>, refs: &Vec<String>, what: &str, owner: &str)
    ensures
        final(diagnostics)@ == old(diagnostics)@ + unknown_findings(texts(known@), texts(refs@), what@, owner@),
{
    let ghost start = diagnostics@;
    let mut i: usize = 0;
    while i < refs.len()
        invariant
            i <= refs@.len(),
            diagnostics@ == start + unknown_findings(texts(known@), texts(refs@).take(i as int), what@, owner@),
        decreases refs@.len() - i,
    {
        let ghost mid = diagnostics@;
        require_known(diagnostics, known, refs[i].as_str(), what, owner);
        proof {
            let r = texts(refs@).take(i as int + 1);
            let x = refs@[i as int]@;
            assert(r.drop_last() =~= texts(refs@).take(i as int));
            assert(r.last() == x);
            assert(seq![x].drop_last() =~= Seq::<Seq<char>>::empty());
            let prior = unknown_findings(texts(known@), texts(refs@).take(i as int), what@, owner@);
            assert(unknown_findings(texts(known@), Seq::<Seq<char>>::empty(), what@, owner@) =~= Seq::<Finding>::empty());
            if texts(known@).contains(x) {
                assert(unknown_findings(texts(known@), seq![x], what@, owner@) =~= Seq::<Finding>::empty());
                assert(diagnostics@ =~= start + prior);
            } else {
                assert(unknown_findings(texts(known@), seq![x], what@, owner@) =~= seq![unknown_finding(owner@, what@, x)]);
                assert(diagnostics@ =~= start + prior.push(unknown_finding(owner@, what@, x)));
            }
        }
        i = i + 1;
    }
    proof { assert(texts(refs@).take(i as int) =~= texts(refs@)); }
}

// ----- methods -----

/// The names of a method's arguments, in order.
pub open spec fn argument_names(method: MethodDefinition) -> Seq<Seq<char>> {
    method.args@.map_values(|a: crate::profile_model::MethodArgument| a.name@)
}

/// Who a method's findings are attributed to.
pub open spec fn method_owner(method: MethodDefinition) -> Seq<char> {
    "the method "@ + debug_text(method.id@)
}

/// What a method's findings are.
pub open spec fn method_findings(
    documents: ProfileDocuments,
    rule_ids: Seq<Seq<char>>,
    event_ids: Seq<Seq<char>>,
    failure_ids: Seq<Seq<char>>,
    behavior_ids: Seq<Seq<char>>,
    method: MethodDefinition,
) -> Seq<Finding> {
    let owner = method_owner(method);
    repeats(argument_names(method)).map_values(|name: Seq<char>|
        defect(owner + " declares the argument "@ + debug_text(name) + " more than once"@, "method"@, method.id@, "argument"@, name))
        + unknown_findings(rule_ids, texts(method.authorization@), "authorization rule"@, owner)
        + unknown_findings(event_ids, texts(method.events@), "event requirement"@, owner)
        + unknown_findings(failure_ids, texts(method.failures@), "failure requirement"@, owner)
        + unknown_findings(behavior_ids, texts(method.behaviors@), "behavioural rule"@, owner)
        + if method.requirement == RequirementStatus::Required && method.behaviors@.len() == 0
            && spec_behaviors_for(documents.behavior.behaviors@, method.id@).len() == 0 {
            seq![caution(owner + " is required but no behavioural rule governs it, so its behaviour is never exercised"@)]
        } else {
            seq![]
        }
}

fn check_method(
    documents: &ProfileDocuments,
    rule_ids: &Vec<String>,
    event_ids: &Vec<String>,
    failure_ids: &Vec<String>,
    behavior_ids: &Vec<String>,
    method: &MethodDefinition,
    diagnostics: &mut Diagnostics,
)
    ensures
        final(diagnostics)@ == old(diagnostics)@ + method_findings(*documents, texts(rule_ids@), texts(event_ids@),
            texts(failure_ids@), texts(behavior_ids@), *method),
{
    let ghost start = diagnostics@;
    let mut owner = owned("the method ");
    push_str(&mut owner, quoted(method.id.as_str()).as_str());
    let ghost names = argument_names(*method);
    let mut seen: Vec<String> = Vec::new();
    let mut i: usize = 0;
    while i < method.args.len()
        invariant
            i <= method.args@.len(),
            names == argument_names(*method),
            owner@ == method_owner(*method),
            texts(seen@) == names.take(i as int),
            diagnostics@ == start + repeats(names.take(i as int)).map_values(|name: Seq<char>|
                defect(owner@ + " declares the argument "@ + debug_text(name) + " more than once"@, "method"@, method.id@, "argument"@, name)),
        decreases method.args@.len() - i,
    {
        let ghost prefix = names.take(i as int + 1);
        proof {
            assert(prefix.drop_last() =~= names.take(i as int));
            assert(prefix.last() == method.args@[i as int].name@);
        }
        let name = method.args[i].name.as_str();
        if contains_text(&seen, name) {
            let mut message = owner.clone();
            push_str(&mut message, " declares the argument ");
            push_str(&mut message, quoted(name).as_str());
            push_str(&mut message, " more than once");
            fail(diagnostics, message, "method", method.id.as_str(), "argument", name);
            proof {
                assert(repeats(prefix).map_values(|n: Seq<char>|
                    defect(owner@ + " declares the argument "@ + debug_text(n) + " more than once"@, "method"@, method.id@, "argument"@, n))
                    =~= repeats(prefix.drop_last()).map_values(|n: Seq<char>|
                    defect(owner@ + " declares the argument "@ + debug_text(n) + " more than once"@, "method"@, method.id@, "argument"@, n)).push(
                    defect(owner@ + " declares the argument "@ + debug_text(name@) + " more than once"@, "method"@, method.id@, "argument"@, name@)));
            }
        }
        let ghost before = seen@;
        seen.push(method.args[i].name.clone());
        proof { assert(texts(seen@) =~= texts(before).push(method.args@[i as int].name@)); }
        i = i + 1;
    }
    proof { assert(names.take(i as int) =~= names); }
    require_all(diagnostics, rule_ids, &method.authorization, "authorization rule", owner.as_str());
    require_all(diagnostics, event_ids, &method.events, "event requirement", owner.as_str());
    require_all(diagnostics, failure_ids, &method.failures, "failure requirement", owner.as_str());
    require_all(diagnostics, behavior_ids, &method.behaviors, "behavioural rule", owner.as_str());
    if method.requirement == RequirementStatus::Required && method.behaviors.len() == 0
        && documents.behaviors_for(method.id.as_str()).len() == 0 {
        let mut message = owner.clone();
        push_str(&mut message, " is required but no behavioural rule governs it, so its behaviour is never exercised");
        warn(diagnostics, message);
    }
}

/// Checks every method in turn.
pub open spec fn method_step(
    documents: ProfileDocuments,
    rule_ids: Seq<Seq<char>>,
    event_ids: Seq<Seq<char>>,
    failure_ids: Seq<Seq<char>>,
    behavior_ids: Seq<Seq<char>>,
) -> spec_fn(MethodDefinition) -> Seq<Finding> {
    |m: MethodDefinition| method_findings(documents, rule_ids, event_ids, failure_ids, behavior_ids, m)
}

fn check_methods(
    documents: &ProfileDocuments,
    rule_ids: &Vec<String>,
    event_ids: &Vec<String>,
    failure_ids: &Vec<String>,
    behavior_ids: &Vec<String>,
    diagnostics: &mut Diagnostics,
)
    ensures
        final(diagnostics)@ == old(diagnostics)@ + concat_map(documents.methods.methods@,
            method_step(*documents, texts(rule_ids@), texts(event_ids@), texts(failure_ids@), texts(behavior_ids@))),
{
    let ghost start = diagnostics@;
    let ghost f = method_step(*documents, texts(rule_ids@), texts(event_ids@), texts(failure_ids@), texts(behavior_ids@));
    let list = &documents.methods.methods;
    let mut i: usize = 0;
    while i < list.len()
        invariant
            list@ == documents.methods.methods@,
            f == method_step(*documents, texts(rule_ids@), texts(event_ids@), texts(failure_ids@), texts(behavior_ids@)),
            i <= list@.len(),
            diagnostics@ == start + concat_map(list@.take(i as int), f),
        decreases list@.len() - i,
    {
        check_method(documents, rule_ids, event_ids, failure_ids, behavior_ids, &list[i], diagnostics);
        proof {
            lemma_concat_map_step(list@, f, i as int);
            assert(diagnostics@ =~= start + concat_map(list@.take(i as int + 1), f));
        }
        i = i + 1;
    }
    proof { assert(list@.take(i as int) =~= list@); }
}

// ----- authorization -----

/// Who an authorization rule's findings are attributed to.
pub open spec fn rule_owner(rule: AuthorizationRule) -> Seq<char> {
    "the authorization rule "@ + debug_text(rule.id@)
}

/// Whether some method the rule governs takes an argument with the name.
pub open spec fn governs_argument(methods: Seq<MethodDefinition>, rule: AuthorizationRule, argument: Seq<char>) -> bool {
    exists|k: int| 0 <= k < methods.len() && texts(rule.methods@).contains(#[trigger] methods[k].id@)
        && argument_names(methods[k]).contains(argument)
}

/// What one authorization path's outcome is checked for.
pub open spec fn path_findings(failure_ids: Seq<Seq<char>>, outcome: AuthorizationOutcome, owner: Seq<char>) -> Seq<Finding> {
    match outcome {
        AuthorizationOutcome::Fail { failure } => unknown_findings(failure_ids, seq![failure@], "failure requirement"@, owner),
        AuthorizationOutcome::Succeed => seq![],
    }
}

/// What an authorization rule's findings are.
pub open spec fn authorization_findings(
    documents: ProfileDocuments,
    method_ids: Seq<Seq<char>>,
    failure_ids: Seq<Seq<char>>,
    rule: AuthorizationRule,
) -> Seq<Finding> {
    let owner = rule_owner(rule);
    unknown_findings(method_ids, texts(rule.methods@), "method"@, owner)
        + (if rule.coverage.mode == CoverageMode::Exact && rule.coverage.arguments@.len() == 0 {
            seq![defect(owner + " requires exact argument coverage but lists no arguments, which would require the contract to demand no authorization"@,
                "rule"@, rule.id@, "mode"@, "exact"@)]
        } else {
            seq![]
        })
        + (match rule.actor {
            AuthorizationActor::Argument { argument, on_behalf_of } =>
                if !governs_argument(documents.methods.methods@, rule, argument@) {
                    seq![defect(owner + " requires "@ + debug_text(argument@) + " to authorize, but no method it governs declares an argument with that name"@,
                        "rule"@, rule.id@, "argument"@, argument@)]
                } else {
                    seq![]
                },
            _ => seq![],
        })
        + path_findings(failure_ids, rule.unauthorized, owner + "'s unauthorized path"@)
        + path_findings(failure_ids, rule.wrong_actor, owner + "'s wrong_actor path"@)
}

/// Whether some method the rule governs takes an argument named `argument`.
fn rule_governs_argument(documents: &ProfileDocuments, rule: &AuthorizationRule, argument: &str) -> (res: bool)
    ensures
        res == governs_argument(documents.methods.methods@, *rule, argument@),
{
    let list = &documents.methods.methods;
    let mut k: usize = 0;
    while k < list.len()
        invariant
            list@ == documents.methods.methods@,
            k <= list@.len(),
            forall|j: int| 0 <= j < k ==> !(texts(rule.methods@).contains(#[trigger] list@[j].id@)
                && argument_names(list@[j]).contains(argument@)),
        decreases list@.len() - k,
    {
        let m = &list[k];
        if contains_text(&rule.methods, m.id.as_str()) {
            let mut a: usize = 0;
            while a < m.args.len()
                invariant
                    list@ == documents.methods.methods@,
                    k < list@.len(),
                    *m == list@[k as int],
                    texts(rule.methods@).contains(m.id@),
                    a <= m.args@.len(),
                    forall|j: int| 0 <= j < a ==> m.args@[j].name@ != argument@,
                decreases m.args@.len() - a,
            {
                if str_eq(m.args[a].name.as_str(), argument) {
                    proof {
                        assert(argument_names(*m)[a as int] == argument@);
                        assert(argument_names(list@[k as int]).contains(argument@));
                    }
                    return true;
                }
                a = a + 1;
            }
            proof {
                assert forall|j: int| 0 <= j < argument_names(*m).len() implies argument_names(*m)[j] != argument@ by {
                    assert(argument_names(*m)[j] == m.args@[j].name@);
                }
            }
        }
        k = k + 1;
    }
    false
}

fn check_path(diagnostics: &mut Diagnostics, failure_ids: &Vec<String>, outcome: &AuthorizationOutcome, owner: &str, path: &str)
    ensures
        final(diagnostics)@ == old(diagnostics)@ + path_findings(texts(failure_ids@), *outcome, owner@ + "'s "@ + path@ + " path"@),
{
    match outcome {
        AuthorizationOutcome::Fail { failure } => {
            let mut where_ = owned(owner);
            push_str(&mut where_, "'s ");
            push_str(&mut where_, path);
            push_str(&mut where_, " path");
            require_known(diagnostics, failure_ids, failure.as_str(), "failure requirement", where_.as_str());
        },
        AuthorizationOutcome::Succeed => {
            proof { assert(old(diagnostics)@ =~= old(diagnostics)@ + Seq::<Finding>::empty()); }
        },
    }
}

fn check_rule(documents: &ProfileDocuments, method_ids: &Vec<String>, failure_ids: &Vec<String>, rule: &AuthorizationRule, diagnostics: &mut Diagnostics)
    ensures
        final(diagnostics)@ == old(diagnostics)@ + authorization_findings(*documents, texts(method_ids@), texts(failure_ids@), *rule),
{
    let ghost start = diagnostics@;
    let mut owner = owned("the authorization rule ");
    push_str(&mut owner, quoted(rule.id.as_str()).as_str());
    require_all(diagnostics, method_ids, &rule.methods, "method", owner.as_str());
    let ghost a = diagnostics@;
    if rule.coverage.mode == CoverageMode::Exact && rule.coverage.arguments.len() == 0 {
        let mut message = owner.clone();
        push_str(&mut message, " requires exact argument coverage but lists no arguments, which would require the contract to demand no authorization");
        fail(diagnostics, message, "rule", rule.id.as_str(), "mode", "exact");
    }
    let ghost b = diagnostics@;
    match &rule.actor {
        AuthorizationActor::Argument { argument, .. } => {
            if !rule_governs_argument(documents, rule, argument.as_str()) {
                let mut message = owner.clone();
                push_str(&mut message, " requires ");
                push_str(&mut message, quoted(argument.as_str()).as_str());
                push_str(&mut message, " to authorize, but no method it governs declares an argument with that name");
                fail(diagnostics, message, "rule", rule.id.as_str(), "argument", argument.as_str());
            }
        },
        _ => {},
    }
    let ghost c = diagnostics@;
    check_path(diagnostics, failure_ids, &rule.unauthorized, owner.as_str(), "unauthorized");
    check_path(diagnostics, failure_ids, &rule.wrong_actor, owner.as_str(), "wrong_actor");
    proof {
        reveal_strlit("'s ");
        reveal_strlit(" path");
        reveal_strlit("unauthorized");
        reveal_strlit("wrong_actor");
        reveal_strlit("'s unauthorized path");
        reveal_strlit("'s wrong_actor path");
        assert(owner@ + "'s "@ + "unauthorized"@ + " path"@ =~= owner@ + "'s unauthorized path"@);
        assert(owner@ + "'s "@ + "wrong_actor"@ + " path"@ =~= owner@ + "'s wrong_actor path"@);
        assert(diagnostics@ =~= start + authorization_findings(*documents, texts(method_ids@), texts(failure_ids@), *rule));
    }
}

/// Checks every authorization rule in turn.
pub open spec fn rule_step(documents: ProfileDocuments, method_ids: Seq<Seq<char>>, failure_ids: Seq<Seq<char>>) -> spec_fn(AuthorizationRule) -> Seq<Finding> {
    |r: AuthorizationRule| authorization_findings(documents, method_ids, failure_ids, r)
}

fn check_authorization(documents: &ProfileDocuments, method_ids: &Vec<String>, failure_ids: &Vec<String>, diagnostics: &mut Diagnostics)
    ensures
        final(diagnostics)@ == old(diagnostics)@ + concat_map(documents.authorization.authorization_rules@,
            rule_step(*documents, texts(method_ids@), texts(failure_ids@))),
{
    let ghost start = diagnostics@;
    let ghost f = rule_step(*documents, texts(method_ids@), texts(failure_ids@));
    let list = &documents.authorization.authorization_rules;
    let mut i: usize = 0;
    while i < list.len()
        invariant
            list@ == documents.authorization.authorization_rules@,
            f == rule_step(*documents, texts(method_ids@), texts(failure_ids@)),
            i <= list@.len(),
            diagnostics@ == start + concat_map(list@.take(i as int), f),
        decreases list@.len() - i,
    {
        check_rule(documents, method_ids, failure_ids, &list[i], diagnostics);
        proof {
            lemma_concat_map_step(list@, f, i as int);
            assert(diagnostics@ =~= start + concat_map(list@.take(i as int + 1), f));
        }
        i = i + 1;
    }
    proof { assert(list@.take(i as int) =~= list@); }
}

// ----- events -----

/// Who an event requirement's findings are attributed to.
pub open spec fn event_owner(event: EventDefinition) -> Seq<char> {
    "the event requirement "@ + debug_text(event.id@)
}

/// The findings for an event's topics: for each topic in order, a repeated index and
/// an index above the limit.
pub open spec fn topic_findings(event: EventDefinition, topics: Seq<EventTopic>) -> Seq<Finding>
    decreases topics.len(),
{
    if topics.len() == 0 {
        seq![]
    } else {
        let owner = event_owner(event);
        let t = topics.last();
        let earlier = topics.drop_last().map_values(|x: EventTopic| x.index);
        topic_findings(event, topics.drop_last())
            + (if earlier.contains(t.index) {
                seq![defect(owner + " declares topic index "@ + spec_decimal(t.index as nat) + " more than once"@,
                    "event"@, event.id@, "index"@, "duplicate"@)]
            } else {
                seq![]
            })
            + (if t.index > MAX_TOPIC_INDEX {
                seq![defect(owner + " declares topic index "@ + spec_decimal(t.index as nat) + ", above the format's limit of 7"@,
                    "event"@, event.id@, "index"@, "out of range"@)]
            } else {
                seq![]
            })
    }
}

/// The findings for an event's orderings: for each in order, an unresolvable target
/// and an event ordered before itself.
pub open spec fn ordering_findings(event_ids: Seq<Seq<char>>, event: EventDefinition, befores: Seq<Seq<char>>) -> Seq<Finding>
    decreases befores.len(),
{
    if befores.len() == 0 {
        seq![]
    } else {
        let owner = event_owner(event);
        let b = befores.last();
        ordering_findings(event_ids, event, befores.drop_last())
            + unknown_findings(event_ids, seq![b], "event requirement"@, owner)
            + (if b == event.id@ {
                seq![defect(owner + " orders itself before itself"@, "event"@, event.id@, "field"@, "ordering"@)]
            } else {
                seq![]
            })
    }
}

/// The targets of an event's orderings, in order.
pub open spec fn befores_of(event: EventDefinition) -> Seq<Seq<char>> {
    event.ordering@.map_values(|o: crate::profile_model::EventOrdering| o.before@)
}

/// What an event requirement's findings are.
pub open spec fn event_findings(event_ids: Seq<Seq<char>>, invariant_ids: Seq<Seq<char>>, event: EventDefinition) -> Seq<Finding> {
    let owner = event_owner(event);
    let c = event.cardinality;
    topic_findings(event, event.topics@)
        + (if c.min > c.max {
            seq![defect(owner + " requires at least "@ + spec_decimal(c.min as nat) + " emissions but permits at most "@
                + spec_decimal(c.max as nat) + ", which no contract can satisfy"@, "event"@, event.id@, "field"@, "cardinality"@)]
        } else {
            seq![]
        })
        + (if event.requirement == RequirementStatus::Forbidden && c.min > 0 {
            seq![defect(owner + " is forbidden and requires at least "@ + spec_decimal(c.min as nat)
                + " emissions, which is a contradiction"@, "event"@, event.id@, "field"@, "requirement"@)]
        } else {
            seq![]
        })
        + ordering_findings(event_ids, event, befores_of(event))
        + unknown_findings(invariant_ids, texts(event.correlations@), "invariant"@, owner)
        + (if event.requirement == RequirementStatus::Required && event.topics@.len() == 0 {
            seq![caution(owner + " is required but declares no topics, so it cannot be matched by name"@)]
        } else {
            seq![]
        })
}

fn check_event(event_ids: &Vec<String>, invariant_ids: &Vec<String>, event: &EventDefinition, diagnostics: &mut Diagnostics)
    ensures
        final(diagnostics)@ == old(diagnostics)@ + event_findings(texts(event_ids@), texts(invariant_ids@), *event),
{
    let ghost start = diagnostics@;
    let mut owner = owned("the event requirement ");
    push_str(&mut owner, quoted(event.id.as_str()).as_str());
    let mut indexes: Vec<u32> = Vec::new();
    let mut i: usize = 0;
    while i < event.topics.len()
        invariant
            owner@ == event_owner(*event),
            i <= event.topics@.len(),
            indexes@ == event.topics@.take(i as int).map_values(|x: EventTopic| x.index),
            diagnostics@ == start + topic_findings(*event, event.topics@.take(i as int)),
        decreases event.topics@.len() - i,
    {
        let index = event.topics[i].index;
        let ghost prefix = event.topics@.take(i as int + 1);
        proof {
            assert(prefix.drop_last() =~= event.topics@.take(i as int));
            assert(prefix.last() == event.topics@[i as int]);
        }
        let mut seen = false;
        let mut k: usize = 0;
        while k < indexes.len()
            invariant
                k <= indexes@.len(),
                seen == exists|j: int| 0 <= j < k && indexes@[j] == index,
            decreases indexes@.len() - k,
        {
            if indexes[k] == index {
                seen = true;
            }
            k = k + 1;
        }
        let ghost mid = diagnostics@;
        if seen {
            let mut message = owner.clone();
            push_str(&mut message, " declares topic index ");
            push_str(&mut message, decimal_text(index as u64).as_str());
            push_str(&mut message, " more than once");
            fail(diagnostics, message, "event", event.id.as_str(), "index", "duplicate");
        }
        let ghost after_dup = diagnostics@;
        if index > MAX_TOPIC_INDEX {
            let mut message = owner.clone();
            push_str(&mut message, " declares topic index ");
            push_str(&mut message, decimal_text(index as u64).as_str());
            push_str(&mut message, ", above the format's limit of 7");
            fail(diagnostics, message, "event", event.id.as_str(), "index", "out of range");
        }
        proof {
            let earlier = prefix.drop_last().map_values(|x: EventTopic| x.index);
            assert(earlier =~= indexes@);
            assert(seen == earlier.contains(index));
            assert(diagnostics@ =~= start + topic_findings(*event, prefix));
        }
        indexes.push(index);
        proof {
            assert(indexes@ =~= prefix.map_values(|x: EventTopic| x.index));
        }
        i = i + 1;
    }
    proof { assert(event.topics@.take(i as int) =~= event.topics@); }
    let ghost t = diagnostics@;
    let c = event.cardinality;
    if c.min > c.max {
        let mut message = owner.clone();
        push_str(&mut message, " requires at least ");
        push_str(&mut message, decimal_text(c.min as u64).as_str());
        push_str(&mut message, " emissions but permits at most ");
        push_str(&mut message, decimal_text(c.max as u64).as_str());
        push_str(&mut message, ", which no contract can satisfy");
        fail(diagnostics, message, "event", event.id.as_str(), "field", "cardinality");
    }
    if event.requirement == RequirementStatus::Forbidden && c.min > 0 {
        let mut message = owner.clone();
        push_str(&mut message, " is forbidden and requires at least ");
        push_str(&mut message, decimal_text(c.min as u64).as_str());
        push_str(&mut message, " emissions, which is a contradiction");
        fail(diagnostics, message, "event", event.id.as_str(), "field", "requirement");
    }
    let ghost o = diagnostics@;
    let ghost befores = befores_of(*event);
    let mut j: usize = 0;
    while j < event.ordering.len()
        invariant
            owner@ == event_owner(*event),
            befores == befores_of(*event),
            j <= event.ordering@.len(),
            diagnostics@ == o + ordering_findings(texts(event_ids@), *event, befores.take(j as int)),
        decreases event.ordering@.len() - j,
    {
        let before = event.ordering[j].before.as_str();
        let ghost prefix = befores.take(j as int + 1);
        proof {
            assert(prefix.drop_last() =~= befores.take(j as int));
            assert(prefix.last() == before@);
        }
        require_known(diagnostics, event_ids, before, "event requirement", owner.as_str());
        if str_eq(before, event.id.as_str()) {
            let mut message = owner.clone();
            push_str(&mut message, " orders itself before itself");
            fail(diagnostics, message, "event", event.id.as_str(), "field", "ordering");
        }
        proof { assert(diagnostics@ =~= o + ordering_findings(texts(event_ids@), *event, prefix)); }
        j = j + 1;
    }
    proof { assert(befores.take(j as int) =~= befores); }
    require_all(diagnostics, invariant_ids, &event.correlations, "invariant", owner.as_str());
    if event.requirement == RequirementStatus::Required && event.topics.len() == 0 {
        let mut message = owner.clone();
        push_str(&mut message, " is required but declares no topics, so it cannot be matched by name");
        warn(diagnostics, message);
    }
    proof { assert(diagnostics@ =~= start + event_findings(texts(event_ids@), texts(invariant_ids@), *event)); }
}

/// Checks every event requirement in turn.
pub open spec fn event_step(event_ids: Seq<Seq<char>>, invariant_ids: Seq<Seq<char>>) -> spec_fn(EventDefinition) -> Seq<Finding> {
    |e: EventDefinition| event_findings(event_ids, invariant_ids, e)
}

fn check_events(documents: &ProfileDocuments, event_ids: &Vec<String>, invariant_ids: &Vec<String>, diagnostics: &mut Diagnostics)
    ensures
        final(diagnostics)@ == old(diagnostics)@ + concat_map(documents.events.events@,
            event_step(texts(event_ids@), texts(invariant_ids@))),
{
    let ghost start = diagnostics@;
    let ghost f = event_step(texts(event_ids@), texts(invariant_ids@));
    let list = &documents.events.events;
    let mut i: usize = 0;
    while i < list.len()
        invariant
            list@ == documents.events.events@,
            f == event_step(texts(event_ids@), texts(invariant_ids@)),
            i <= list@.len(),
            diagnostics@ == start + concat_map(list@.take(i as int), f),
        decreases list@.len() - i,
    {
        check_event(event_ids, invariant_ids, &list[i], diagnostics);
        proof {
            lemma_concat_map_step(list@, f, i as int);
            assert(diagnostics@ =~= start + concat_map(list@.take(i as int + 1), f));
        }
        i = i + 1;
    }
    proof { assert(list@.take(i as int) =~= list@); }
}

// ----- behaviour -----

/// Who a behavioural rule's findings are attributed to.
pub open spec fn behavior_owner(rule: BehaviorRule) -> Seq<char> {
    "the behavioural rule "@ + debug_text(rule.id@)
}

/// The events a rule both requires and forbids, each reported where it is required.
pub open spec fn contradiction_findings(rule: BehaviorRule, expected: Seq<Seq<char>>) -> Seq<Finding>
    decreases expected.len(),
{
    if expected.len() == 0 {
        seq![]
    } else {
        let e = expected.last();
        contradiction_findings(rule, expected.drop_last())
            + (if texts(rule.forbid_events@).contains(e) {
                seq![defect(behavior_owner(rule) + " requires the event "@ + debug_text(e) + " and forbids it in the same rule"@,
                    "behavior"@, rule.id@, "event"@, e)]
            } else {
                seq![]
            })
    }
}

/// What a behavioural rule's findings are.
pub open spec fn behavior_findings(
    method_ids: Seq<Seq<char>>,
    failure_ids: Seq<Seq<char>>,
    event_ids: Seq<Seq<char>>,
    invariant_ids: Seq<Seq<char>>,
    rule: BehaviorRule,
) -> Seq<Finding> {
    let owner = behavior_owner(rule);
    unknown_findings(method_ids, seq![rule.method@], "method"@, owner)
        + unknown_findings(failure_ids, texts(rule.expect_failures@), "failure requirement"@, owner)
        + unknown_findings(invariant_ids, texts(rule.invariants@), "invariant"@, owner)
        + unknown_findings(event_ids, texts(rule.expect_events@), "event requirement"@, owner)
        + unknown_findings(event_ids, texts(rule.forbid_events@), "event requirement"@, owner)
        + contradiction_findings(rule, texts(rule.expect_events@))
        + (if rule.kind == BehaviorKind::Failure && rule.expect_failures@.len() == 0 {
            seq![defect(owner + " describes a path that must fail but names no failure, so any failure including an unrelated one would satisfy it"@,
                "behavior"@, rule.id@, "kind"@, "failure"@)]
        } else if rule.kind == BehaviorKind::Success && rule.expect_failures@.len() != 0 {
            seq![defect(owner + " describes a path that must succeed but expects a failure"@, "behavior"@, rule.id@, "kind"@, "success"@)]
        } else {
            seq![]
        })
}

fn check_behavior(
    method_ids: &Vec<String>,
    failure_ids: &Vec<String>,
    event_ids: &Vec<String>,
    invariant_ids: &Vec<String>,
    rule: &BehaviorRule,
    diagnostics: &mut Diagnostics,
)
    ensures
        final(diagnostics)@ == old(diagnostics)@ + behavior_findings(texts(method_ids@), texts(failure_ids@),
            texts(event_ids@), texts(invariant_ids@), *rule),
{
    let ghost start = diagnostics@;
    let mut owner = owned("the behavioural rule ");
    push_str(&mut owner, quoted(rule.id.as_str()).as_str());
    require_known(diagnostics, method_ids, rule.method.as_str(), "method", owner.as_str());
    require_all(diagnostics, failure_ids, &rule.expect_failures, "failure requirement", owner.as_str());
    require_all(diagnostics, invariant_ids, &rule.invariants, "invariant", owner.as_str());
    require_all(diagnostics, event_ids, &rule.expect_events, "event requirement", owner.as_str());
    require_all(diagnostics, event_ids, &rule.forbid_events, "event requirement", owner.as_str());
    let ghost c = diagnostics@;
    let ghost expected = texts(rule.expect_events@);
    let mut i: usize = 0;
    while i < rule.expect_events.len()
        invariant
            owner@ == behavior_owner(*rule),
            expected == texts(rule.expect_events@),
            i <= rule.expect_events@.len(),
            diagnostics@ == c + contradiction_findings(*rule, expected.take(i as int)),
        decreases rule.expect_events@.len() - i,
    {
        let e = rule.expect_events[i].as_str();
        let ghost prefix = expected.take(i as int + 1);
        proof {
            assert(prefix.drop_last() =~= expected.take(i as int));
            assert(prefix.last() == e@);
        }
        if contains_text(&rule.forbid_events, e) {
            let mut message = owner.clone();
            push_str(&mut message, " requires the event ");
            push_str(&mut message, quoted(e).as_str());
            push_str(&mut message, " and forbids it in the same rule");
            fail(diagnostics, message, "behavior", rule.id.as_str(), "event", e);
        }
        proof { assert(diagnostics@ =~= c + contradiction_findings(*rule, prefix)); }
        i = i + 1;
    }
    proof { assert(expected.take(i as int) =~= expected); }
    if rule.kind == BehaviorKind::Failure && rule.expect_failures.len() == 0 {
        let mut message = owner.clone();
        push_str(&mut message, " describes a path that must fail but names no failure, so any failure including an unrelated one would satisfy it");
        fail(diagnostics, message, "behavior", rule.id.as_str(), "kind", "failure");
    } else if rule.kind == BehaviorKind::Success && rule.expect_failures.len() != 0 {
        let mut message = owner.clone();
        push_str(&mut message, " describes a path that must succeed but expects a failure");
        fail(diagnostics, message, "behavior", rule.id.as_str(), "kind", "success");
    }
    proof {
        assert(diagnostics@ =~= start + behavior_findings(texts(method_ids@), texts(failure_ids@),
            texts(event_ids@), texts(invariant_ids@), *rule));
    }
}

/// Checks every behavioural rule in turn.
pub open spec fn behavior_step(
    method_ids: Seq<Seq<char>>,
    failure_ids: Seq<Seq<char>>,
    event_ids: Seq<Seq<char>>,
    invariant_ids: Seq<Seq<char>>,
) -> spec_fn(BehaviorRule) -> Seq<Finding> {
    |r: BehaviorRule| behavior_findings(method_ids, failure_ids, event_ids, invariant_ids, r)
}

fn check_behaviors(
    documents: &ProfileDocuments,
    method_ids: &Vec<String>,
    failure_ids: &Vec<String>,
    event_ids: &Vec<String>,
    invariant_ids: &Vec<String>,
    diagnostics: &mut Diagnostics,
)
    ensures
        final(diagnostics)@ == old(diagnostics)@ + concat_map(documents.behavior.behaviors@,
            behavior_step(texts(method_ids@), texts(failure_ids@), texts(event_ids@), texts(invariant_ids@))),
{
    let ghost start = diagnostics@;
    let ghost f = behavior_step(texts(method_ids@), texts(failure_ids@), texts(event_ids@), texts(invariant_ids@));
    let list = &documents.behavior.behaviors;
    let mut i: usize = 0;
    while i < list.len()
        invariant
            list@ == documents.behavior.behaviors@,
            f == behavior_step(texts(method_ids@), texts(failure_ids@), texts(event_ids@), texts(invariant_ids@)),
            i <= list@.len(),
            diagnostics@ == start + concat_map(list@.take(i as int), f),
        decreases list@.len() - i,
    {
        check_behavior(method_ids, failure_ids, event_ids, invariant_ids, &list[i], diagnostics);
        proof {
            lemma_concat_map_step(list@, f, i as int);
            assert(diagnostics@ =~= start + concat_map(list@.take(i as int + 1), f));
        }
        i = i + 1;
    }
    proof { assert(list@.take(i as int) =~= list@); }
}

// ----- invariants -----

/// Who an invariant's findings are attributed to.
pub open spec fn invariant_owner(rule: InvariantDefinition) -> Seq<char> {
    "the invariant "@ + debug_text(rule.id@)
}

/// A finding about an invariant, named by its id and kind.
pub open spec fn invariant_defect(rule: InvariantDefinition, message: Seq<char>) -> Finding {
    defect(message, "invariant"@, rule.id@, "kind"@, rule.kind.spec_name())
}

/// The findings for an invariant's scope: every method other than the wildcard that
/// the profile does not declare.
pub open spec fn scope_findings(method_ids: Seq<Seq<char>>, owner: Seq<char>, scoped: Seq<Seq<char>>) -> Seq<Finding>
    decreases scoped.len(),
{
    if scoped.len() == 0 {
        seq![]
    } else if scoped.last() == "*"@ {
        scope_findings(method_ids, owner, scoped.drop_last())
    } else {
        scope_findings(method_ids, owner, scoped.drop_last()) + unknown_findings(method_ids, seq![scoped.last()], "method"@, owner)
    }
}

/// What an invariant's findings are.
pub open spec fn invariant_findings(method_ids: Seq<Seq<char>>, rule: InvariantDefinition) -> Seq<Finding> {
    let owner = invariant_owner(rule);
    let kind = rule.kind.spec_name();
    let ranges = rule.kind.spec_ranges_over_resource();
    let needs_predicate = rule.kind is Predicate || rule.kind is Bounds;
    scope_findings(method_ids, owner, texts(rule.scope.methods@))
        + (if rule.resource is None && ranges {
            seq![invariant_defect(rule, owner + " is a "@ + kind + " invariant but names no resource set to range over"@)]
        } else if rule.resource is Some && !ranges {
            seq![invariant_defect(rule, owner + " names a resource set but a "@ + kind + " invariant does not range over one"@)]
        } else {
            seq![]
        })
        + (if rule.direction is None && rule.kind is Monotonic {
            seq![invariant_defect(rule, owner + " is monotonic but states no direction"@)]
        } else if rule.direction is Some && !(rule.kind is Monotonic) {
            seq![invariant_defect(rule, owner + " states a direction but is a "@ + kind + " invariant, which is not a directional claim"@)]
        } else {
            seq![]
        })
        + (if rule.predicate is None && needs_predicate {
            seq![invariant_defect(rule, owner + " is a "@ + kind + " invariant but supplies no predicate"@)]
        } else if rule.predicate is Some && !needs_predicate {
            seq![invariant_defect(rule, owner + " supplies a predicate but is a "@ + kind + " invariant, which is evaluated by its own rule"@)]
        } else {
            seq![]
        })
}

fn check_invariant(method_ids: &Vec<String>, rule: &InvariantDefinition, diagnostics: &mut Diagnostics)
    ensures
        final(diagnostics)@ == old(diagnostics)@ + invariant_findings(texts(method_ids@), *rule),
{
    let ghost start = diagnostics@;
    let mut owner = owned("the invariant ");
    push_str(&mut owner, quoted(rule.id.as_str()).as_str());
    let kind = rule.kind.as_str();
    let ghost scoped = texts(rule.scope.methods@);
    let mut i: usize = 0;
    while i < rule.scope.methods.len()
        invariant
            owner@ == invariant_owner(*rule),
            scoped == texts(rule.scope.methods@),
            i <= rule.scope.methods@.len(),
            diagnostics@ == start + scope_findings(texts(method_ids@), owner@, scoped.take(i as int)),
        decreases rule.scope.methods@.len() - i,
    {
        let m = rule.scope.methods[i].as_str();
        let ghost prefix = scoped.take(i as int + 1);
        proof {
            assert(prefix.drop_last() =~= scoped.take(i as int));
            assert(prefix.last() == m@);
        }
        if !str_eq(m, "*") {
            require_known(diagnostics, method_ids, m, "method", owner.as_str());
        }
        proof { assert(diagnostics@ =~= start + scope_findings(texts(method_ids@), owner@, prefix)); }
        i = i + 1;
    }
    proof { assert(scoped.take(i as int) =~= scoped); }
    let ranges = rule.kind.ranges_over_resource();
    if rule.resource.is_none() && ranges {
        let mut message = owner.clone();
        push_str(&mut message, " is a ");
        push_str(&mut message, kind);
        push_str(&mut message, " invariant but names no resource set to range over");
        fail(diagnostics, message, "invariant", rule.id.as_str(), "kind", kind);
    } else if rule.resource.is_some() && !ranges {
        let mut message = owner.clone();
        push_str(&mut message, " names a resource set but a ");
        push_str(&mut message, kind);
        push_str(&mut message, " invariant does not range over one");
        fail(diagnostics, message, "invariant", rule.id.as_str(), "kind", kind);
    }
    let monotonic = match rule.kind { InvariantKind::Monotonic => true, _ => false };
    if rule.direction.is_none() && monotonic {
        let mut message = owner.clone();
        push_str(&mut message, " is monotonic but states no direction");
        fail(diagnostics, message, "invariant", rule.id.as_str(), "kind", kind);
    } else if rule.direction.is_some() && !monotonic {
        let mut message = owner.clone();
        push_str(&mut message, " states a direction but is a ");
        push_str(&mut message, kind);
        push_str(&mut message, " invariant, which is not a directional claim");
        fail(diagnostics, message, "invariant", rule.id.as_str(), "kind", kind);
    }
    let needs_predicate = match rule.kind { InvariantKind::Predicate | InvariantKind::Bounds => true, _ => false };
    if rule.predicate.is_none() && needs_predicate {
        let mut message = owner.clone();
        push_str(&mut message, " is a ");
        push_str(&mut message, kind);
        push_str(&mut message, " invariant but supplies no predicate");
        fail(diagnostics, message, "invariant", rule.id.as_str(), "kind", kind);
    } else if rule.predicate.is_some() && !needs_predicate {
        let mut message = owner.clone();
        push_str(&mut message, " supplies a predicate but is a ");
        push_str(&mut message, kind);
        push_str(&mut message, " invariant, which is evaluated by its own rule");
        fail(diagnostics, message, "invariant", rule.id.as_str(), "kind", kind);
    }
    proof { assert(diagnostics@ =~= start + invariant_findings(texts(method_ids@), *rule)); }
}

/// Checks every invariant in turn.
pub open spec fn invariant_step(method_ids: Seq<Seq<char>>) -> spec_fn(InvariantDefinition) -> Seq<Finding> {
    |r: InvariantDefinition| invariant_findings(method_ids, r)
}

fn check_invariants(documents: &ProfileDocuments, method_ids: &Vec<String>, diagnostics: &mut Diagnostics)
    ensures
        final(diagnostics)@ == old(diagnostics)@ + concat_map(documents.invariants.invariants@, invariant_step(texts(method_ids@))),
{
    let ghost start = diagnostics@;
    let ghost f = invariant_step(texts(method_ids@));
    let list = &documents.invariants.invariants;
    let mut i: usize = 0;
    while i < list.len()
        invariant
            list@ == documents.invariants.invariants@,
            f == invariant_step(texts(method_ids@)),
            i <= list@.len(),
            diagnostics@ == start + concat_map(list@.take(i as int), f),
        decreases list@.len() - i,
    {
        check_invariant(method_ids, &list[i], diagnostics);
        proof {
            lemma_concat_map_step(list@, f, i as int);
            assert(diagnostics@ =~= start + concat_map(list@.take(i as int + 1), f));
        }
        i = i + 1;
    }
    proof { assert(list@.take(i as int) =~= list@); }
}

// ----- failures -----

/// Who a failure requirement's findings are attributed to.
pub open spec fn failure_owner(failure: FailureDefinition) -> Seq<char> {
    "the failure requirement "@ + debug_text(failure.id@)
}

/// What a failure requirement's findings are.
pub open spec fn failure_findings(method_ids: Seq<Seq<char>>, failure: FailureDefinition) -> Seq<Finding> {
    let owner = failure_owner(failure);
    let allowed = failure.error_codes.allowed@.len();
    unknown_findings(method_ids, texts(failure.methods@), "method"@, owner)
        + (if failure.error_codes.policy == ErrorCodePolicy::SemanticOnly && allowed != 0 {
            seq![defect(owner + " uses the semantic_only policy but lists "@ + spec_decimal(allowed)
                + " tolerated payload(s), which would never be consulted"@, "failure"@, failure.id@, "field"@, "error_codes"@)]
        } else if failure.error_codes.policy == ErrorCodePolicy::ExactRequired && allowed != 1 {
            seq![defect(owner + " requires an exact payload but lists "@ + spec_decimal(allowed)
                + " of them; exactly one is needed to name it"@, "failure"@, failure.id@, "field"@, "error_codes"@)]
        } else {
            seq![]
        })
        + (if failure.category.spec_is_authorization() && failure.expected.signal == FailureSignal::HostError {
            seq![defect(owner + " classifies an authorization failure as host_error, but an authorization rejection must come from the contract's own check"@,
                "failure"@, failure.id@, "category"@, "authorization"@)]
        } else {
            seq![]
        })
}

fn check_failure(method_ids: &Vec<String>, failure: &FailureDefinition, diagnostics: &mut Diagnostics)
    ensures
        final(diagnostics)@ == old(diagnostics)@ + failure_findings(texts(method_ids@), *failure),
{
    let ghost start = diagnostics@;
    let mut owner = owned("the failure requirement ");
    push_str(&mut owner, quoted(failure.id.as_str()).as_str());
    require_all(diagnostics, method_ids, &failure.methods, "method", owner.as_str());
    let allowed = failure.error_codes.allowed.len();
    if failure.error_codes.policy == ErrorCodePolicy::SemanticOnly && allowed != 0 {
        let mut message = owner.clone();
        push_str(&mut message, " uses the semantic_only policy but lists ");
        push_str(&mut message, decimal_text(allowed as u64).as_str());
        push_str(&mut message, " tolerated payload(s), which would never be consulted");
        fail(diagnostics, message, "failure", failure.id.as_str(), "field", "error_codes");
    } else if failure.error_codes.policy == ErrorCodePolicy::ExactRequired && allowed != 1 {
        let mut message = owner.clone();
        push_str(&mut message, " requires an exact payload but lists ");
        push_str(&mut message, decimal_text(allowed as u64).as_str());
        push_str(&mut message, " of them; exactly one is needed to name it");
        fail(diagnostics, message, "failure", failure.id.as_str(), "field", "error_codes");
    }
    if failure.category.is_authorization() && failure.expected.signal == FailureSignal::HostError {
        let mut message = owner.clone();
        push_str(&mut message, " classifies an authorization failure as host_error, but an authorization rejection must come from the contract's own check");
        fail(diagnostics, message, "failure", failure.id.as_str(), "category", "authorization");
    }
    proof { assert(diagnostics@ =~= start + failure_findings(texts(method_ids@), *failure)); }
}

/// Checks every failure requirement in turn.
pub open spec fn failure_step(method_ids: Seq<Seq<char>>) -> spec_fn(FailureDefinition) -> Seq<Finding> {
    |f: FailureDefinition| failure_findings(method_ids, f)
}

fn check_failures(documents: &ProfileDocuments, method_ids: &Vec<String>, diagnostics: &mut Diagnostics)
    ensures
        final(diagnostics)@ == old(diagnostics)@ + concat_map(documents.failures.failures@, failure_step(texts(method_ids@))),
{
    let ghost start = diagnostics@;
    let ghost f = failure_step(texts(method_ids@));
    let list = &documents.failures.failures;
    let mut i: usize = 0;
    while i < list.len()
        invariant
            list@ == documents.failures.failures@,
            f == failure_step(texts(method_ids@)),
            i <= list@.len(),
            diagnostics@ == start + concat_map(list@.take(i as int), f),
        decreases list@.len() - i,
    {
        check_failure(method_ids, &list[i], diagnostics);
        proof {
            lemma_concat_map_step(list@, f, i as int);
            assert(diagnostics@ =~= start + concat_map(list@.take(i as int + 1), f));
        }
        i = i + 1;
    }
    proof { assert(list@.take(i as int) =~= list@); }
}

// ----- the whole bundle -----

/// The ids of the authorization rules, in order.
pub open spec fn rule_ids(rules: Seq<AuthorizationRule>) -> Seq<Seq<char>> {
    rules.map_values(|r: AuthorizationRule| r.id@)
}

/// The ids of the behavioural rules, in order.
pub open spec fn behavior_ids(rules: Seq<BehaviorRule>) -> Seq<Seq<char>> {
    rules.map_values(|r: BehaviorRule| r.id@)
}

fn method_id_list(documents: &ProfileDocuments) -> (res: Vec<String>)
    ensures
        texts(res@) == method_ids(documents.methods.methods@),
{
    let list = &documents.methods.methods;
    let mut out: Vec<String> = Vec::new();
    let mut i: usize = 0;
    while i < list.len()
        invariant
            list@ == documents.methods.methods@,
            i <= list@.len(),
            texts(out@) == method_ids(list@.take(i as int)),
        decreases list@.len() - i,
    {
        let ghost before = out@;
        out.push(list[i].id.clone());
        proof {
            assert(texts(out@) =~= texts(before).push(list@[i as int].id@));
            assert(method_ids(list@.take(i as int + 1)) =~= method_ids(list@.take(i as int)).push(list@[i as int].id@));
        }
        i = i + 1;
    }
    proof { assert(list@.take(i as int) =~= list@); }
    out
}

fn rule_id_list(documents: &ProfileDocuments) -> (res: Vec<String>)
    ensures
        texts(res@) == rule_ids(documents.authorization.authorization_rules@),
{
    let list = &documents.authorization.authorization_rules;
    let mut out: Vec<String> = Vec::new();
    let mut i: usize = 0;
    while i < list.len()
        invariant
            list@ == documents.authorization.authorization_rules@,
            i <= list@.len(),
            texts(out@) == rule_ids(list@.take(i as int)),
        decreases list@.len() - i,
    {
        let ghost before = out@;
        out.push(list[i].id.clone());
        proof {
            assert(texts(out@) =~= texts(before).push(list@[i as int].id@));
            assert(rule_ids(list@.take(i as int + 1)) =~= rule_ids(list@.take(i as int)).push(list@[i as int].id@));
        }
        i = i + 1;
    }
    proof { assert(list@.take(i as int) =~= list@); }
    out
}

fn event_id_list(documents: &ProfileDocuments) -> (res: Vec<String>)
    ensures
        texts(res@) == event_ids(documents.events.events@),
{
    let list = &documents.events.events;
    let mut out: Vec<String> = Vec::new();
    let mut i: usize = 0;
    while i < list.len()
        invariant
            list@ == documents.events.events@,
            i <= list@.len(),
            texts(out@) == event_ids(list@.take(i as int)),
        decreases list@.len() - i,
    {
        let ghost before = out@;
        out.push(list[i].id.clone());
        proof {
            assert(texts(out@) =~= texts(before).push(list@[i as int].id@));
            assert(event_ids(list@.take(i as int + 1)) =~= event_ids(list@.take(i as int)).push(list@[i as int].id@));
        }
        i = i + 1;
    }
    proof { assert(list@.take(i as int) =~= list@); }
    out
}

fn behavior_id_list(documents: &ProfileDocuments) -> (res: Vec<String>)
    ensures
        texts(res@) == behavior_ids(documents.behavior.behaviors@),
{
    let list = &documents.behavior.behaviors;
    let mut out: Vec<String> = Vec::new();
    let mut i: usize = 0;
    while i < list.len()
        invariant
            list@ == documents.behavior.behaviors@,
            i <= list@.len(),
            texts(out@) == behavior_ids(list@.take(i as int)),
        decreases list@.len() - i,
    {
        let ghost before = out@;
        out.push(list[i].id.clone());
        proof {
            assert(texts(out@) =~= texts(before).push(list@[i as int].id@));
            assert(behavior_ids(list@.take(i as int + 1)) =~= behavior_ids(list@.take(i as int)).push(list@[i as int].id@));
        }
        i = i + 1;
    }
    proof { assert(list@.take(i as int) =~= list@); }
    out
}

fn invariant_id_list(documents: &ProfileDocuments) -> (res: Vec<String>)
    ensures
        texts(res@) == invariant_ids(documents.invariants.invariants@),
{
    let list = &documents.invariants.invariants;
    let mut out: Vec<String> = Vec::new();
    let mut i: usize = 0;
    while i < list.len()
        invariant
            list@ == documents.invariants.invariants@,
            i <= list@.len(),
            texts(out@) == invariant_ids(list@.take(i as int)),
        decreases list@.len() - i,
    {
        let ghost before = out@;
        out.push(list[i].id.clone());
        proof {
            assert(texts(out@) =~= texts(before).push(list@[i as int].id@));
            assert(invariant_ids(list@.take(i as int + 1)) =~= invariant_ids(list@.take(i as int)).push(list@[i as int].id@));
        }
        i = i + 1;
    }
    proof { assert(list@.take(i as int) =~= list@); }
    out
}

fn failure_id_list(documents: &ProfileDocuments) -> (res: Vec<String>)
    ensures
        texts(res@) == failure_ids(documents.failures.failures@),
{
    let list = &documents.failures.failures;
    let mut out: Vec<String> = Vec::new();
    let mut i: usize = 0;
    while i < list.len()
        invariant
            list@ == documents.failures.failures@,
            i <= list@.len(),
            texts(out@) == failure_ids(list@.take(i as int)),
        decreases list@.len() - i,
    {
        let ghost before = out@;
        out.push(list[i].id.clone());
        proof {
            assert(texts(out@) =~= texts(before).push(list@[i as int].id@));
            assert(failure_ids(list@.take(i as int + 1)) =~= failure_ids(list@.take(i as int)).push(list@[i as int].id@));
        }
        i = i + 1;
    }
    proof { assert(list@.take(i as int) =~= list@); }
    out
}

/// The findings for the identifiers `document` declares more than once.
pub open spec fn duplicate_findings(ids: Seq<Seq<char>>, document: Seq<char>) -> Seq<Finding> {
    repeats(ids).map_values(|id: Seq<char>| duplicate_finding(document, id))
}

/// Every finding about a bundle's six documents: identifiers declared twice, document
/// by document, then each document's own references and consistency, in the order
/// methods, authorization, events, behaviour, invariants, failures.
pub open spec fn spec_validate(documents: ProfileDocuments) -> Seq<Finding> {
    let m = method_ids(documents.methods.methods@);
    let r = rule_ids(documents.authorization.authorization_rules@);
    let e = event_ids(documents.events.events@);
    let b = behavior_ids(documents.behavior.behaviors@);
    let i = invariant_ids(documents.invariants.invariants@);
    let f = failure_ids(documents.failures.failures@);
    duplicate_findings(m, "the method document"@)
        + duplicate_findings(r, "the authorization document"@)
        + duplicate_findings(e, "the event document"@)
        + duplicate_findings(b, "the behaviour document"@)
        + duplicate_findings(i, "the invariant document"@)
        + duplicate_findings(f, "the failure document"@)
        + concat_map(documents.methods.methods@, method_step(documents, r, e, f, b))
        + concat_map(documents.authorization.authorization_rules@, rule_step(documents, m, f))
        + concat_map(documents.events.events@, event_step(e, i))
        + concat_map(documents.behavior.behaviors@, behavior_step(m, f, e, i))
        + concat_map(documents.invariants.invariants@, invariant_step(m))
        + concat_map(documents.failures.failures@, failure_step(m))
}

/// Reports every unresolvable reference and every inconsistency in the six documents.
pub fn validate(documents: &ProfileDocuments) -> (res: Diagnostics)
    ensures
        res@ == spec_validate(*documents),
{
    let mut diagnostics = Diagnostics::new();
    let methods = method_id_list(documents);
    let rules = rule_id_list(documents);
    let events = event_id_list(documents);
    let behaviors = behavior_id_list(documents);
    let invariants = invariant_id_list(documents);
    let failures = failure_id_list(documents);
    declared(&methods, "the method document", &mut diagnostics);
    declared(&rules, "the authorization document", &mut diagnostics);
    declared(&events, "the event document", &mut diagnostics);
    declared(&behaviors, "the behaviour document", &mut diagnostics);
    declared(&invariants, "the invariant document", &mut diagnostics);
    declared(&failures, "the failure document", &mut diagnostics);
    check_methods(documents, &rules, &events, &failures, &behaviors, &mut diagnostics);
    check_authorization(documents, &methods, &failures, &mut diagnostics);
    check_events(documents, &events, &invariants, &mut diagnostics);
    check_behaviors(documents, &methods, &failures, &events, &invariants, &mut diagnostics);
    check_invariants(documents, &methods, &mut diagnostics);
    check_failures(documents, &methods, &mut diagnostics);
    proof { assert(diagnostics@ =~= spec_validate(*documents)); }
    diagnostics
}

impl ProfileDocuments {
    /// Reports every unresolvable reference in the documents.
    pub fn validate(&self) -> (res: Diagnostics)
        ensures
            res@ == spec_validate(*self),
    {
        validate(self)
    }
}

} // verus!

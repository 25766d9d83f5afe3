//! Checking a vector against the profile it is declared for.
//!
//! A vector names a method the profile declares, inputs that must exactly cover that
//! method's arguments, failures, invariants and events from the profile's documents,
//! and fixture actors its expressions refer to. None of those is checkable from the
//! vector alone, and every one is a way for a requirement to be written and then never
//! applied, so an unresolvable reference is an error, never a reason to skip.
use vstd::prelude::*;

use crate::expr::{
    Predicate, ValueExpr, operands_of, predicate_actors, predicate_reads, predicates_actors, predicates_reads,
    value_actors, value_reads, values_actors, values_reads,
};
use crate::bundle::ProfileBundle;
use crate::profile_model::{
    MethodDefinition, ProfileDocuments, event_ids, failure_ids, first_with_id, invariant_ids, lemma_first_with_id_none,
    method_ids,
};
use crate::references::argument_names;
use crate::taxonomy::{Diagnostic, Diagnostics, ErrorClass, Finding, Severity, error_finding};
use crate::text::{
    contains_text, debug_text, decimal_text, insert_sorted, lemma_sorted_texts, occurs_in, owned, push_str, quoted,
    sorted_distinct, sorted_texts, str_eq, texts,
};
use crate::vector_model::{
    AuthorizationExpectation, EventExpectation, ExpectedResult, FixtureAllowance, StateAssertion, StateResourceRef,
    VectorDocument,
};

verus! {

/// Whether the lists of actors and reads are each sorted and distinct.
pub open spec fn well_sorted(actors: Seq<String>, reads: Seq<String>) -> bool {
    sorted_distinct(texts(actors)) && sorted_distinct(texts(reads))
}

/// Collects the fixture actors and read methods a value expression refers to.
pub fn walk_value(expr: &ValueExpr, actors: &mut Vec<String>, reads: &mut Vec<String>)
    requires
        well_sorted(old(actors)@, old(reads)@),
    ensures
        well_sorted(final(actors)@, final(reads)@),
        texts(final(actors)@).to_set() == texts(old(actors)@).to_set().union(value_actors(*expr)),
        texts(final(reads)@).to_set() == texts(old(reads)@).to_set().union(value_reads(*expr)),
    decreases expr,
{
    let ghost a0 = texts(actors@).to_set();
    let ghost r0 = texts(reads@).to_set();
    match expr {
        ValueExpr::Actor { actor } => {
            insert_sorted(actors, actor.as_str());
            proof {
                assert(a0.insert(actor@) =~= a0.union(set![actor@]));
                assert(r0 =~= r0.union(Set::<Seq<char>>::empty()));
            }
        },
        ValueExpr::Read { method, args } => {
            insert_sorted(reads, method.as_str());
            walk_values(args, actors, reads);
            proof {
                assert(r0.insert(method@).union(values_reads(args@)) =~= r0.union(set![method@].union(values_reads(args@))));
            }
        },
        ValueExpr::Field { of, .. } => {
            walk_value(of, actors, reads);
        },
        ValueExpr::AllowanceExpiry { from, spender } => {
            walk_value(from, actors, reads);
            walk_value(spender, actors, reads);
            proof {
                assert(a0.union(value_actors(**from)).union(value_actors(**spender)) =~= a0.union(value_actors(**from).union(value_actors(**spender))));
                assert(r0.union(value_reads(**from)).union(value_reads(**spender)) =~= r0.union(value_reads(**from).union(value_reads(**spender))));
            }
        },
        ValueExpr::Arithmetic { operands, .. } => {
            walk_values(operands, actors, reads);
        },
        _ => {
            proof {
                assert(a0 =~= a0.union(Set::<Seq<char>>::empty()));
                assert(r0 =~= r0.union(Set::<Seq<char>>::empty()));
            }
        },
    }
}

/// Collects the fixture actors and read methods a list of value expressions refers to.
pub fn walk_values(exprs: &Vec<ValueExpr>, actors: &mut Vec<String>, reads: &mut Vec<String>)
    requires
        well_sorted(old(actors)@, old(reads)@),
    ensures
        well_sorted(final(actors)@, final(reads)@),
        texts(final(actors)@).to_set() == texts(old(actors)@).to_set().union(values_actors(exprs@)),
        texts(final(reads)@).to_set() == texts(old(reads)@).to_set().union(values_reads(exprs@)),
    decreases exprs@,
{
    let ghost a0 = texts(actors@).to_set();
    let ghost r0 = texts(reads@).to_set();
    proof {
        assert(exprs@.take(0) =~= Seq::<ValueExpr>::empty());
        assert(a0 =~= a0.union(Set::<Seq<char>>::empty()));
        assert(r0 =~= r0.union(Set::<Seq<char>>::empty()));
    }
    let mut i: usize = 0;
    while i < exprs.len()
        invariant
            i <= exprs@.len(),
            well_sorted(actors@, reads@),
            texts(actors@).to_set() == a0.union(values_actors(exprs@.take(i as int))),
            texts(reads@).to_set() == r0.union(values_reads(exprs@.take(i as int))),
        decreases exprs@.len() - i,
    {
        proof { assert(decreases_to!(exprs@ => exprs@[i as int])); }
        walk_value(&exprs[i], actors, reads);
        proof {
            let p = exprs@.take(i as int + 1);
            assert(p.drop_last() =~= exprs@.take(i as int));
            assert(p.last() == exprs@[i as int]);
            assert(a0.union(values_actors(exprs@.take(i as int))).union(value_actors(exprs@[i as int]))
                =~= a0.union(values_actors(p)));
            assert(r0.union(values_reads(exprs@.take(i as int))).union(value_reads(exprs@[i as int]))
                =~= r0.union(values_reads(p)));
        }
        i = i + 1;
    }
    proof { assert(exprs@.take(i as int) =~= exprs@); }
}

/// The actors and reads of a short list of expressions, written out.
proof fn lemma_values_short(a: ValueExpr, b: ValueExpr, c: ValueExpr)
    ensures
        values_actors(seq![a]) == value_actors(a),
        values_reads(seq![a]) == value_reads(a),
        values_actors(seq![a, b]) == value_actors(a).union(value_actors(b)),
        values_reads(seq![a, b]) == value_reads(a).union(value_reads(b)),
        values_actors(seq![a, b, c]) == value_actors(a).union(value_actors(b)).union(value_actors(c)),
        values_reads(seq![a, b, c]) == value_reads(a).union(value_reads(b)).union(value_reads(c)),
{
    assert(seq![a].drop_last() =~= Seq::<ValueExpr>::empty());
    assert(values_actors(Seq::<ValueExpr>::empty()) == Set::<Seq<char>>::empty());
    assert(values_reads(Seq::<ValueExpr>::empty()) == Set::<Seq<char>>::empty());
    assert(seq![a].last() == a);
    assert(seq![a, b].drop_last() =~= seq![a]);
    assert(seq![a, b, c].drop_last() =~= seq![a, b]);
    assert(values_actors(seq![a]) =~= value_actors(a));
    assert(values_reads(seq![a]) =~= value_reads(a));
    assert(seq![a, b].last() == b);
    assert(values_actors(seq![a, b]) == value_actors(a).union(value_actors(b)));
    assert(values_reads(seq![a, b]) == value_reads(a).union(value_reads(b)));
    assert(seq![a, b, c].last() == c);
}

/// Collects the fixture actors and read methods a predicate refers to.
pub fn walk_predicate(predicate: &Predicate, actors: &mut Vec<String>, reads: &mut Vec<String>)
    requires
        well_sorted(old(actors)@, old(reads)@),
    ensures
        well_sorted(final(actors)@, final(reads)@),
        texts(final(actors)@).to_set() == texts(old(actors)@).to_set().union(predicate_actors(*predicate)),
        texts(final(reads)@).to_set() == texts(old(reads)@).to_set().union(predicate_reads(*predicate)),
    decreases predicate,
{
    let ghost a0 = texts(actors@).to_set();
    let ghost r0 = texts(reads@).to_set();
    match predicate {
        Predicate::Equal { left, right } | Predicate::NotEqual { left, right }
        | Predicate::LessThan { left, right } | Predicate::LessOrEqual { left, right }
        | Predicate::GreaterThan { left, right } | Predicate::GreaterOrEqual { left, right } => {
            walk_value(left, actors, reads);
            walk_value(right, actors, reads);
            proof {
                lemma_values_short(*left, *right, *right);
                assert(operands_of(*predicate) == seq![*left, *right]);
                assert(a0.union(value_actors(*left)).union(value_actors(*right)) =~= a0.union(value_actors(*left).union(value_actors(*right))));
                assert(r0.union(value_reads(*left)).union(value_reads(*right)) =~= r0.union(value_reads(*left).union(value_reads(*right))));
            }
        },
        Predicate::OneOf { value, allowed } => {
            walk_value(value, actors, reads);
            let ghost head = seq![*value];
            proof {
                lemma_values_short(*value, *value, *value);
                assert(head + allowed@.take(0) =~= head);
            }
            let mut i: usize = 0;
            while i < allowed.len()
                invariant
                    head == seq![*value],
                    i <= allowed@.len(),
                    well_sorted(actors@, reads@),
                    texts(actors@).to_set() == a0.union(values_actors(head + allowed@.take(i as int))),
                    texts(reads@).to_set() == r0.union(values_reads(head + allowed@.take(i as int))),
                decreases allowed@.len() - i,
            {
                walk_value(&allowed[i], actors, reads);
                proof {
                    let p = head + allowed@.take(i as int + 1);
                    assert(p.drop_last() =~= head + allowed@.take(i as int));
                    assert(p.last() == allowed@[i as int]);
                    assert(a0.union(values_actors(head + allowed@.take(i as int))).union(value_actors(allowed@[i as int]))
                        =~= a0.union(values_actors(p)));
                    assert(r0.union(values_reads(head + allowed@.take(i as int))).union(value_reads(allowed@[i as int]))
                        =~= r0.union(values_reads(p)));
                }
                i = i + 1;
            }
            proof {
                assert(allowed@.take(i as int) =~= allowed@);
                assert(operands_of(*predicate) == head + allowed@);
            }
        },
        Predicate::InRange { value, min, max } => {
            walk_value(value, actors, reads);
            walk_value(min, actors, reads);
            walk_value(max, actors, reads);
            proof {
                lemma_values_short(*value, *min, *max);
                assert(operands_of(*predicate) == seq![*value, *min, *max]);
                assert(a0.union(value_actors(*value)).union(value_actors(*min)).union(value_actors(*max))
                    =~= a0.union(value_actors(*value).union(value_actors(*min)).union(value_actors(*max))));
                assert(r0.union(value_reads(*value)).union(value_reads(*min)).union(value_reads(*max))
                    =~= r0.union(value_reads(*value).union(value_reads(*min)).union(value_reads(*max))));
            }
        },
        Predicate::Delta { target, by, .. } => {
            walk_value(target, actors, reads);
            match by {
                Some(magnitude) => {
                    walk_value(magnitude, actors, reads);
                    proof {
                        lemma_values_short(*target, *magnitude, *magnitude);
                        assert(a0.union(value_actors(*target)).union(value_actors(*magnitude))
                            =~= a0.union(value_actors(*target).union(value_actors(*magnitude))));
                        assert(r0.union(value_reads(*target)).union(value_reads(*magnitude))
                            =~= r0.union(value_reads(*target).union(value_reads(*magnitude))));
                    }
                },
                None => {
                    proof { lemma_values_short(*target, *target, *target); }
                },
            }
        },
        Predicate::Unchanged { target } => {
            walk_value(target, actors, reads);
            proof { lemma_values_short(*target, *target, *target); }
        },
        Predicate::AllOf { predicates } => {
            walk_predicates(predicates, actors, reads);
        },
        Predicate::AnyOf { predicates } => {
            walk_predicates(predicates, actors, reads);
        },
        Predicate::Not { predicate: inner } => {
            walk_predicate(inner, actors, reads);
        },
    }
}

/// Collects the fixture actors and read methods a list of predicates refers to.
pub fn walk_predicates(predicates: &Vec<Predicate>, actors: &mut Vec<String>, reads: &mut Vec<String>)
    requires
        well_sorted(old(actors)@, old(reads)@),
    ensures
        well_sorted(final(actors)@, final(reads)@),
        texts(final(actors)@).to_set() == texts(old(actors)@).to_set().union(predicates_actors(predicates@)),
        texts(final(reads)@).to_set() == texts(old(reads)@).to_set().union(predicates_reads(predicates@)),
    decreases predicates@,
{
    let ghost a0 = texts(actors@).to_set();
    let ghost r0 = texts(reads@).to_set();
    proof {
        assert(predicates@.take(0) =~= Seq::<Predicate>::empty());
        assert(a0 =~= a0.union(Set::<Seq<char>>::empty()));
        assert(r0 =~= r0.union(Set::<Seq<char>>::empty()));
    }
    let mut i: usize = 0;
    while i < predicates.len()
        invariant
            i <= predicates@.len(),
            well_sorted(actors@, reads@),
            texts(actors@).to_set() == a0.union(predicates_actors(predicates@.take(i as int))),
            texts(reads@).to_set() == r0.union(predicates_reads(predicates@.take(i as int))),
        decreases predicates@.len() - i,
    {
        proof { assert(decreases_to!(predicates@ => predicates@[i as int])); }
        walk_predicate(&predicates[i], actors, reads);
        proof {
            let p = predicates@.take(i as int + 1);
            assert(p.drop_last() =~= predicates@.take(i as int));
            assert(p.last() == predicates@[i as int]);
            assert(a0.union(predicates_actors(predicates@.take(i as int))).union(predicate_actors(predicates@[i as int]))
                =~= a0.union(predicates_actors(p)));
            assert(r0.union(predicates_reads(predicates@.take(i as int))).union(predicate_reads(predicates@[i as int]))
                =~= r0.union(predicates_reads(p)));
        }
        i = i + 1;
    }
    proof { assert(predicates@.take(i as int) =~= predicates@); }
}

// ----- what a vector refers to -----

/// The values of the inputs, in order.
pub open spec fn input_values(inputs: Seq<(String, ValueExpr)>) -> Seq<ValueExpr> {
    inputs.map_values(|p: (String, ValueExpr)| p.1)
}

/// The names of the inputs, in order.
pub open spec fn input_names(inputs: Seq<(String, ValueExpr)>) -> Seq<Seq<char>> {
    inputs.map_values(|p: (String, ValueExpr)| p.0@)
}

/// The fixture actors the expected events name.
pub open spec fn events_actors(events: Seq<EventExpectation>) -> Set<Seq<char>>
    decreases events.len(),
{
    if events.len() == 0 {
        Set::empty()
    } else {
        events_actors(events.drop_last()).union(values_actors(events.last().topics@)).union(values_actors(events.last().data@))
    }
}

/// The methods the expected events read.
pub open spec fn events_reads(events: Seq<EventExpectation>) -> Set<Seq<char>>
    decreases events.len(),
{
    if events.len() == 0 {
        Set::empty()
    } else {
        events_reads(events.drop_last()).union(values_reads(events.last().topics@)).union(values_reads(events.last().data@))
    }
}

/// The fixture actors a state assertion names: through a custom resource's read, and
/// through its predicate.
pub open spec fn state_actors(a: StateAssertion) -> Set<Seq<char>> {
    let read = match a.resource {
        StateResourceRef::Custom { name, read } => value_actors(read),
        _ => Set::empty(),
    };
    read.union(predicate_actors(a.predicate))
}

/// The methods a state assertion reads.
pub open spec fn state_reads(a: StateAssertion) -> Set<Seq<char>> {
    let read = match a.resource {
        StateResourceRef::Custom { name, read } => value_reads(read),
        _ => Set::empty(),
    };
    read.union(predicate_reads(a.predicate))
}

/// The fixture actors the state assertions name.
pub open spec fn states_actors(list: Seq<StateAssertion>) -> Set<Seq<char>>
    decreases list.len(),
{
    if list.len() == 0 { Set::empty() } else { states_actors(list.drop_last()).union(state_actors(list.last())) }
}

/// The methods the state assertions read.
pub open spec fn states_reads(list: Seq<StateAssertion>) -> Set<Seq<char>>
    decreases list.len(),
{
    if list.len() == 0 { Set::empty() } else { states_reads(list.drop_last()).union(state_reads(list.last())) }
}

/// The predicates of the independently reported checks, in order.
pub open spec fn assertion_predicates(v: VectorDocument) -> Seq<Predicate> {
    v.assertions@.map_values(|a: crate::vector_model::Assertion| a.predicate)
}

/// Every fixture actor the vector's expressions name.
pub open spec fn referenced_actors(v: VectorDocument) -> Set<Seq<char>> {
    values_actors(input_values(v.inputs@))
        .union(match v.expected.return_value { Some(e) => value_actors(e), None => Set::empty() })
        .union(events_actors(v.expected.events.required@))
        .union(states_actors(v.expected.state_assertions@))
        .union(predicates_actors(assertion_predicates(v)))
}

/// Every method the vector's expressions read.
pub open spec fn referenced_reads(v: VectorDocument) -> Set<Seq<char>> {
    values_reads(input_values(v.inputs@))
        .union(match v.expected.return_value { Some(e) => value_reads(e), None => Set::empty() })
        .union(events_reads(v.expected.events.required@))
        .union(states_reads(v.expected.state_assertions@))
        .union(predicates_reads(assertion_predicates(v)))
}

/// Collects every fixture actor and read method the vector's expressions refer to,
/// each in increasing order.
fn collect_references(vector: &VectorDocument) -> (res: (Vec<String>, Vec<String>))
    ensures
        texts(res.0@) == sorted_texts(referenced_actors(*vector)),
        texts(res.1@) == sorted_texts(referenced_reads(*vector)),
{
    let mut actors: Vec<String> = Vec::new();
    let mut reads: Vec<String> = Vec::new();
    proof {
        assert(texts(actors@).to_set() =~= Set::<Seq<char>>::empty());
        assert(texts(reads@).to_set() =~= Set::<Seq<char>>::empty());
    }
    let ghost values = input_values(vector.inputs@);
    let mut i: usize = 0;
    while i < vector.inputs.len()
        invariant
            values == input_values(vector.inputs@),
            i <= vector.inputs@.len(),
            well_sorted(actors@, reads@),
            texts(actors@).to_set() == values_actors(values.take(i as int)),
            texts(reads@).to_set() == values_reads(values.take(i as int)),
        decreases vector.inputs@.len() - i,
    {
        let ghost a = texts(actors@).to_set();
        let ghost r = texts(reads@).to_set();
        walk_value(&vector.inputs[i].1, &mut actors, &mut reads);
        proof {
            let p = values.take(i as int + 1);
            assert(p.drop_last() =~= values.take(i as int));
            assert(p.last() == vector.inputs@[i as int].1);
        }
        i = i + 1;
    }
    proof { assert(values.take(i as int) =~= values); }
    let ghost a1 = texts(actors@).to_set();
    let ghost r1 = texts(reads@).to_set();
    match &vector.expected.return_value {
        Some(e) => {
            walk_value(e, &mut actors, &mut reads);
        },
        None => {
            proof {
                assert(a1 =~= a1.union(Set::<Seq<char>>::empty()));
                assert(r1 =~= r1.union(Set::<Seq<char>>::empty()));
            }
        },
    }
    let ghost a2 = texts(actors@).to_set();
    let ghost r2 = texts(reads@).to_set();
    let required = &vector.expected.events.required;
    let mut k: usize = 0;
    proof {
        assert(required@.take(0) =~= Seq::<EventExpectation>::empty());
        assert(a2 =~= a2.union(Set::<Seq<char>>::empty()));
        assert(r2 =~= r2.union(Set::<Seq<char>>::empty()));
    }
    while k < required.len()
        invariant
            required@ == vector.expected.events.required@,
            k <= required@.len(),
            well_sorted(actors@, reads@),
            texts(actors@).to_set() == a2.union(events_actors(required@.take(k as int))),
            texts(reads@).to_set() == r2.union(events_reads(required@.take(k as int))),
        decreases required@.len() - k,
    {
        walk_values(&required[k].topics, &mut actors, &mut reads);
        walk_values(&required[k].data, &mut actors, &mut reads);
        proof {
            let p = required@.take(k as int + 1);
            assert(p.drop_last() =~= required@.take(k as int));
            assert(p.last() == required@[k as int]);
            assert(texts(actors@).to_set() =~= a2.union(events_actors(p)));
            assert(texts(reads@).to_set() =~= r2.union(events_reads(p)));
        }
        k = k + 1;
    }
    proof { assert(required@.take(k as int) =~= required@); }
    let ghost a3 = texts(actors@).to_set();
    let ghost r3 = texts(reads@).to_set();
    let states = &vector.expected.state_assertions;
    let mut j: usize = 0;
    proof {
        assert(states@.take(0) =~= Seq::<StateAssertion>::empty());
        assert(a3 =~= a3.union(Set::<Seq<char>>::empty()));
        assert(r3 =~= r3.union(Set::<Seq<char>>::empty()));
    }
    while j < states.len()
        invariant
            states@ == vector.expected.state_assertions@,
            j <= states@.len(),
            well_sorted(actors@, reads@),
            texts(actors@).to_set() == a3.union(states_actors(states@.take(j as int))),
            texts(reads@).to_set() == r3.union(states_reads(states@.take(j as int))),
        decreases states@.len() - j,
    {
        let ghost a = texts(actors@).to_set();
        let ghost r = texts(reads@).to_set();
        match &states[j].resource {
            StateResourceRef::Custom { read, .. } => {
                walk_value(read, &mut actors, &mut reads);
            },
            _ => {
                proof {
                    assert(a =~= a.union(Set::<Seq<char>>::empty()));
                    assert(r =~= r.union(Set::<Seq<char>>::empty()));
                }
            },
        }
        walk_predicate(&states[j].predicate, &mut actors, &mut reads);
        proof {
            let p = states@.take(j as int + 1);
            assert(p.drop_last() =~= states@.take(j as int));
            assert(p.last() == states@[j as int]);
            assert(texts(actors@).to_set() =~= a3.union(states_actors(p)));
            assert(texts(reads@).to_set() =~= r3.union(states_reads(p)));
        }
        j = j + 1;
    }
    proof { assert(states@.take(j as int) =~= states@); }
    let ghost a4 = texts(actors@).to_set();
    let ghost r4 = texts(reads@).to_set();
    let ghost preds = assertion_predicates(*vector);
    let mut m: usize = 0;
    proof {
        assert(preds.take(0) =~= Seq::<Predicate>::empty());
        assert(a4 =~= a4.union(Set::<Seq<char>>::empty()));
        assert(r4 =~= r4.union(Set::<Seq<char>>::empty()));
    }
    while m < vector.assertions.len()
        invariant
            preds == assertion_predicates(*vector),
            m <= vector.assertions@.len(),
            well_sorted(actors@, reads@),
            texts(actors@).to_set() == a4.union(predicates_actors(preds.take(m as int))),
            texts(reads@).to_set() == r4.union(predicates_reads(preds.take(m as int))),
        decreases vector.assertions@.len() - m,
    {
        walk_predicate(&vector.assertions[m].predicate, &mut actors, &mut reads);
        proof {
            let p = preds.take(m as int + 1);
            assert(p.drop_last() =~= preds.take(m as int));
            assert(p.last() == vector.assertions@[m as int].predicate);
            assert(texts(actors@).to_set() =~= a4.union(predicates_actors(p)));
            assert(texts(reads@).to_set() =~= r4.union(predicates_reads(p)));
        }
        m = m + 1;
    }
    proof {
        assert(preds.take(m as int) =~= preds);
        assert(texts(actors@).to_set() =~= referenced_actors(*vector));
        assert(texts(reads@).to_set() =~= referenced_reads(*vector));
        lemma_sorted_texts(texts(actors@));
        lemma_sorted_texts(texts(reads@));
    }
    (actors, reads)
}

// ----- findings -----

/// A vector defect naming the field and the reference it concerns.
pub open spec fn vdefect(message: Seq<char>, field: Seq<char>, value: Seq<char>) -> Finding {
    error_finding(ErrorClass::VectorError, message, seq![("field"@, field), ("reference"@, value)])
}

/// Records an error-severity vector finding.
fn fail(diagnostics: &mut Diagnostics, message: String, field: &str, value: &str)
    ensures
        final(diagnostics)@ == old(diagnostics)@.push(vdefect(message@, field@, value@)),
{
    let d = Diagnostic::error(ErrorClass::VectorError, message).with_context("field", owned(field)).with_context("reference", owned(value));
    proof { assert(d@.context =~= seq![("field"@, field@), ("reference"@, value@)]); }
    diagnostics.push(d);
}

/// The findings for the texts in `list` that `known` does not hold, in order.
pub open spec fn absent_findings(list: Seq<Seq<char>>, known: Seq<Seq<char>>, mk: spec_fn(Seq<char>) -> Finding) -> Seq<Finding>
    decreases list.len(),
{
    if list.len() == 0 {
        seq![]
    } else if known.contains(list.last()) {
        absent_findings(list.drop_last(), known, mk)
    } else {
        absent_findings(list.drop_last(), known, mk).push(mk(list.last()))
    }
}

/// `"vector <id>"`, as every vector finding begins.
pub open spec fn vector_label(v: VectorDocument) -> Seq<char> {
    "vector "@ + debug_text(v.id@)
}

// ----- actors -----

/// The names of the declared fixture actors, in order.
pub open spec fn actor_names(v: VectorDocument) -> Seq<Seq<char>> {
    v.fixtures.actors@.map_values(|a: crate::vector_model::FixtureActor| a.name@)
}

/// What a reference to an undeclared actor is reported as.
pub open spec fn missing_actor(v: VectorDocument, what: Seq<char>) -> spec_fn(Seq<char>) -> Finding {
    |name: Seq<char>| vdefect(vector_label(v) + " names "@ + debug_text(name) + " in "@ + what + ", but declares no such fixture actor"@, "actor"@, name)
}

/// The findings for the fixture allowances' holders and spenders, allowance by
/// allowance.
pub open spec fn allowance_findings(v: VectorDocument, known: Seq<Seq<char>>, allowances: Seq<FixtureAllowance>) -> Seq<Finding>
    decreases allowances.len(),
{
    if allowances.len() == 0 {
        seq![]
    } else {
        let a = allowances.last();
        allowance_findings(v, known, allowances.drop_last())
            + absent_findings(seq![a.from@], known, missing_actor(v, "a fixture allowance's holder"@))
            + absent_findings(seq![a.spender@], known, missing_actor(v, "a fixture allowance's spender"@))
    }
}

/// The first element of each pair.
pub open spec fn keys_of<V>(pairs: Seq<(String, V)>) -> Seq<Seq<char>> {
    pairs.map_values(|p: (String, V)| p.0@)
}

/// What checking the fixture actors finds: actors declared twice, then every
/// reference to an undeclared one from the balances, the allowances, the
/// authorization flags and the authorization plan.
pub open spec fn actor_findings(v: VectorDocument) -> Seq<Finding> {
    let known = actor_names(v);
    crate::references::repeats(known).map_values(|name: Seq<char>|
        vdefect(vector_label(v) + " declares the fixture actor "@ + debug_text(name) + " more than once; every reference to it is ambiguous"@, "actor"@, name))
        + absent_findings(keys_of(v.fixtures.balances@), known, missing_actor(v, "an opening balance"@))
        + allowance_findings(v, known, v.fixtures.allowances@)
        + absent_findings(keys_of(v.fixtures.authorization@), known, missing_actor(v, "an authorization flag"@))
        + absent_findings(texts(v.authorization.actors@), known, missing_actor(v, "the authorization plan"@))
        + absent_findings(texts(v.authorization.substituted_for@), known, missing_actor(v, "the authorization plan"@))
}

/// Reports `name` when no declared actor has it.
fn require_actor(diagnostics: &mut Diagnostics, actors: &Vec<String>, name: &str, vector: &VectorDocument, what: &str)
    ensures
        final(diagnostics)@ == old(diagnostics)@ + absent_findings(seq![name@], texts(actors@), missing_actor(*vector, what@)),
{
    let ghost start = diagnostics@;
    proof {
        assert(seq![name@].drop_last() =~= Seq::<Seq<char>>::empty());
        assert(absent_findings(Seq::<Seq<char>>::empty(), texts(actors@), missing_actor(*vector, what@)) =~= Seq::<Finding>::empty());
    }
    if !contains_text(actors, name) {
        let mut message = owned("vector ");
        push_str(&mut message, quoted(vector.id.as_str()).as_str());
        push_str(&mut message, " names ");
        push_str(&mut message, quoted(name).as_str());
        push_str(&mut message, " in ");
        push_str(&mut message, what);
        push_str(&mut message, ", but declares no such fixture actor");
        fail(diagnostics, message, "actor", name);
        proof { assert(diagnostics@ =~= start + seq![missing_actor(*vector, what@)(name@)]); }
    } else {
        proof { assert(diagnostics@ =~= start + Seq::<Finding>::empty()); }
    }
}

/// Reports every name in `names` that no declared actor has.
fn require_actors(diagnostics: &mut Diagnostics, actors: &Vec<String>, names: &Vec<String>, vector: &VectorDocument, what: &str)
    ensures
        final(diagnostics)@ == old(diagnostics)@ + absent_findings(texts(names@), texts(actors@), missing_actor(*vector, what@)),
{
    let ghost start = diagnostics@;
    let mut i: usize = 0;
    while i < names.len()
        invariant
            i <= names@.len(),
            diagnostics@ == start + absent_findings(texts(names@).take(i as int), texts(actors@), missing_actor(*vector, what@)),
        decreases names@.len() - i,
    {
        let ghost before = diagnostics@;
        require_actor(diagnostics, actors, names[i].as_str(), vector, what);
        proof { lemma_absent_step(texts(names@), texts(actors@), missing_actor(*vector, what@), i as int, start, before, diagnostics@); }
        i = i + 1;
    }
    proof { assert(texts(names@).take(i as int) =~= texts(names@)); }
}

/// Checking one more name adds what checking it alone finds.
proof fn lemma_absent_step(
    list: Seq<Seq<char>>,
    known: Seq<Seq<char>>,
    mk: spec_fn(Seq<char>) -> Finding,
    i: int,
    start: Seq<Finding>,
    before: Seq<Finding>,
    after: Seq<Finding>,
)
    requires
        0 <= i < list.len(),
        before == start + absent_findings(list.take(i), known, mk),
        after == before + absent_findings(seq![list[i]], known, mk),
    ensures
        after == start + absent_findings(list.take(i + 1), known, mk),
{
    let p = list.take(i + 1);
    assert(p.drop_last() =~= list.take(i));
    assert(p.last() == list[i]);
    assert(seq![list[i]].drop_last() =~= Seq::<Seq<char>>::empty());
    assert(absent_findings(Seq::<Seq<char>>::empty(), known, mk) =~= Seq::<Finding>::empty());
    if known.contains(list[i]) {
        assert(after =~= start + absent_findings(p, known, mk));
    } else {
        assert(absent_findings(seq![list[i]], known, mk) =~= seq![mk(list[i])]);
        assert(after =~= start + absent_findings(p, known, mk));
    }
}

/// Collects the fixture actor names, reporting any declared twice and every reference
/// to one that is not declared.
fn check_actors(diagnostics: &mut Diagnostics, vector: &VectorDocument) -> (res: Vec<String>)
    ensures
        texts(res@) == actor_names(*vector),
        final(diagnostics)@ == old(diagnostics)@ + actor_findings(*vector),
{
    let ghost start = diagnostics@;
    let ghost names = actor_names(*vector);
    let mut actors: Vec<String> = Vec::new();
    let mut i: usize = 0;
    while i < vector.fixtures.actors.len()
        invariant
            names == actor_names(*vector),
            i <= vector.fixtures.actors@.len(),
            texts(actors@) == names.take(i as int),
            diagnostics@ == start + crate::references::repeats(names.take(i as int)).map_values(|name: Seq<char>|
                vdefect(vector_label(*vector) + " declares the fixture actor "@ + debug_text(name) + " more than once; every reference to it is ambiguous"@, "actor"@, name)),
        decreases vector.fixtures.actors@.len() - i,
    {
        let name = vector.fixtures.actors[i].name.as_str();
        let ghost p = names.take(i as int + 1);
        proof {
            assert(p.drop_last() =~= names.take(i as int));
            assert(p.last() == name@);
        }
        if contains_text(&actors, name) {
            let mut message = owned("vector ");
            push_str(&mut message, quoted(vector.id.as_str()).as_str());
            push_str(&mut message, " declares the fixture actor ");
            push_str(&mut message, quoted(name).as_str());
            push_str(&mut message, " more than once; every reference to it is ambiguous");
            fail(diagnostics, message, "actor", name);
            proof {
                assert(crate::references::repeats(p).map_values(|n: Seq<char>|
                    vdefect(vector_label(*vector) + " declares the fixture actor "@ + debug_text(n) + " more than once; every reference to it is ambiguous"@, "actor"@, n))
                    =~= crate::references::repeats(p.drop_last()).map_values(|n: Seq<char>|
                    vdefect(vector_label(*vector) + " declares the fixture actor "@ + debug_text(n) + " more than once; every reference to it is ambiguous"@, "actor"@, n)).push(
                    vdefect(vector_label(*vector) + " declares the fixture actor "@ + debug_text(name@) + " more than once; every reference to it is ambiguous"@, "actor"@, name@)));
            }
        }
        let ghost before = actors@;
        actors.push(vector.fixtures.actors[i].name.clone());
        proof { assert(texts(actors@) =~= texts(before).push(name@)); }
        i = i + 1;
    }
    proof { assert(names.take(i as int) =~= names); }
    let ghost d1 = diagnostics@;
    let ghost balances = keys_of(vector.fixtures.balances@);
    let mut b: usize = 0;
    while b < vector.fixtures.balances.len()
        invariant
            balances == keys_of(vector.fixtures.balances@),
            texts(actors@) == names,
            b <= vector.fixtures.balances@.len(),
            diagnostics@ == d1 + absent_findings(balances.take(b as int), names, missing_actor(*vector, "an opening balance"@)),
        decreases vector.fixtures.balances@.len() - b,
    {
        let ghost before = diagnostics@;
        require_actor(diagnostics, &actors, vector.fixtures.balances[b].0.as_str(), vector, "an opening balance");
        proof { lemma_absent_step(balances, names, missing_actor(*vector, "an opening balance"@), b as int, d1, before, diagnostics@); }
        b = b + 1;
    }
    proof { assert(balances.take(b as int) =~= balances); }
    let ghost d2 = diagnostics@;
    let allowances = &vector.fixtures.allowances;
    let mut a: usize = 0;
    proof { assert(allowances@.take(0) =~= Seq::<FixtureAllowance>::empty()); }
    while a < allowances.len()
        invariant
            allowances@ == vector.fixtures.allowances@,
            texts(actors@) == names,
            a <= allowances@.len(),
            diagnostics@ == d2 + allowance_findings(*vector, names, allowances@.take(a as int)),
        decreases allowances@.len() - a,
    {
        require_actor(diagnostics, &actors, allowances[a].from.as_str(), vector, "a fixture allowance's holder");
        require_actor(diagnostics, &actors, allowances[a].spender.as_str(), vector, "a fixture allowance's spender");
        proof {
            let p = allowances@.take(a as int + 1);
            assert(p.drop_last() =~= allowances@.take(a as int));
            assert(p.last() == allowances@[a as int]);
            assert(diagnostics@ =~= d2 + allowance_findings(*vector, names, p));
        }
        a = a + 1;
    }
    proof { assert(allowances@.take(a as int) =~= allowances@); }
    let ghost d3 = diagnostics@;
    let ghost flags = keys_of(vector.fixtures.authorization@);
    let mut f: usize = 0;
    while f < vector.fixtures.authorization.len()
        invariant
            flags == keys_of(vector.fixtures.authorization@),
            texts(actors@) == names,
            f <= vector.fixtures.authorization@.len(),
            diagnostics@ == d3 + absent_findings(flags.take(f as int), names, missing_actor(*vector, "an authorization flag"@)),
        decreases vector.fixtures.authorization@.len() - f,
    {
        let ghost before = diagnostics@;
        require_actor(diagnostics, &actors, vector.fixtures.authorization[f].0.as_str(), vector, "an authorization flag");
        proof { lemma_absent_step(flags, names, missing_actor(*vector, "an authorization flag"@), f as int, d3, before, diagnostics@); }
        f = f + 1;
    }
    proof { assert(flags.take(f as int) =~= flags); }
    require_actors(diagnostics, &actors, &vector.authorization.actors, vector, "the authorization plan");
    require_actors(diagnostics, &actors, &vector.authorization.substituted_for, vector, "the authorization plan");
    proof { assert(diagnostics@ =~= start + actor_findings(*vector)); }
    actors
}

// ----- inputs -----

/// What an input the method does not take is reported as.
pub open spec fn extra_input(v: VectorDocument, method: MethodDefinition) -> spec_fn(Seq<char>) -> Finding {
    |name: Seq<char>| vdefect(vector_label(v) + " supplies the input "@ + debug_text(name) + ", which "@
        + debug_text(method.name@) + " does not take"@, "input"@, name)
}

/// What an argument the vector does not supply is reported as.
pub open spec fn missing_argument(v: VectorDocument, method: MethodDefinition) -> spec_fn(Seq<char>) -> Finding {
    |name: Seq<char>| vdefect(vector_label(v) + " does not supply "@ + debug_text(name) + ", which "@
        + debug_text(method.name@) + " requires; the call it describes cannot be made"@, "argument"@, name)
}

/// What checking the inputs against the method's arguments finds: every supplied
/// input the method does not take, then every argument not supplied, each in name
/// order.
pub open spec fn input_findings(v: VectorDocument, method: MethodDefinition) -> Seq<Finding> {
    let declared = sorted_texts(argument_names(method).to_set());
    let supplied = sorted_texts(input_names(v.inputs@).to_set());
    absent_findings(supplied, declared, extra_input(v, method))
        + absent_findings(declared, supplied, missing_argument(v, method))
}

/// Reports every text of `list` that `known` does not hold, as `mk` describes it.
fn report_absent_inputs(diagnostics: &mut Diagnostics, list: &Vec<String>, known: &Vec<String>, vector: &VectorDocument, method: &MethodDefinition, extra: bool)
    ensures
        final(diagnostics)@ == old(diagnostics)@ + absent_findings(texts(list@), texts(known@),
            if extra { extra_input(*vector, *method) } else { missing_argument(*vector, *method) }),
{
    let ghost mk = if extra { extra_input(*vector, *method) } else { missing_argument(*vector, *method) };
    let ghost start = diagnostics@;
    let mut i: usize = 0;
    while i < list.len()
        invariant
            mk == (if extra { extra_input(*vector, *method) } else { missing_argument(*vector, *method) }),
            i <= list@.len(),
            diagnostics@ == start + absent_findings(texts(list@).take(i as int), texts(known@), mk),
        decreases list@.len() - i,
    {
        let ghost before = diagnostics@;
        let name = list[i].as_str();
        proof {
            assert(seq![name@].drop_last() =~= Seq::<Seq<char>>::empty());
            assert(absent_findings(Seq::<Seq<char>>::empty(), texts(known@), mk) =~= Seq::<Finding>::empty());
            assert(texts(list@)[i as int] == name@);
        }
        if !contains_text(known, name) {
            let mut message = owned("vector ");
            push_str(&mut message, quoted(vector.id.as_str()).as_str());
            if extra {
                push_str(&mut message, " supplies the input ");
                push_str(&mut message, quoted(name).as_str());
                push_str(&mut message, ", which ");
                push_str(&mut message, quoted(method.name.as_str()).as_str());
                push_str(&mut message, " does not take");
                fail(diagnostics, message, "input", name);
            } else {
                push_str(&mut message, " does not supply ");
                push_str(&mut message, quoted(name).as_str());
                push_str(&mut message, ", which ");
                push_str(&mut message, quoted(method.name.as_str()).as_str());
                push_str(&mut message, " requires; the call it describes cannot be made");
                fail(diagnostics, message, "argument", name);
            }
            proof { assert(diagnostics@ =~= before + seq![mk(name@)]); }
        } else {
            proof { assert(diagnostics@ =~= before + Seq::<Finding>::empty()); }
        }
        proof { lemma_absent_step(texts(list@), texts(known@), mk, i as int, start, before, diagnostics@); }
        i = i + 1;
    }
    proof { assert(texts(list@).take(i as int) =~= texts(list@)); }
}

/// Checks that the inputs cover the method's arguments exactly, in both directions.
fn check_inputs(diagnostics: &mut Diagnostics, vector: &VectorDocument, method: &MethodDefinition)
    ensures
        final(diagnostics)@ == old(diagnostics)@ + input_findings(*vector, *method),
{
    let mut declared: Vec<String> = Vec::new();
    let mut i: usize = 0;
    proof { assert(texts(declared@).to_set() =~= argument_names(*method).take(0).to_set()); }
    while i < method.args.len()
        invariant
            i <= method.args@.len(),
            sorted_distinct(texts(declared@)),
            texts(declared@).to_set() == argument_names(*method).take(i as int).to_set(),
        decreases method.args@.len() - i,
    {
        insert_sorted(&mut declared, method.args[i].name.as_str());
        proof {
            assert(argument_names(*method).take(i as int + 1) =~= argument_names(*method).take(i as int).push(method.args@[i as int].name@));
            crate::text::lemma_to_set_push(argument_names(*method).take(i as int), method.args@[i as int].name@);
        }
        i = i + 1;
    }
    proof {
        assert(argument_names(*method).take(i as int) =~= argument_names(*method));
        lemma_sorted_texts(texts(declared@));
    }
    let mut supplied: Vec<String> = Vec::new();
    let mut k: usize = 0;
    proof { assert(texts(supplied@).to_set() =~= input_names(vector.inputs@).take(0).to_set()); }
    while k < vector.inputs.len()
        invariant
            k <= vector.inputs@.len(),
            sorted_distinct(texts(supplied@)),
            texts(supplied@).to_set() == input_names(vector.inputs@).take(k as int).to_set(),
        decreases vector.inputs@.len() - k,
    {
        insert_sorted(&mut supplied, vector.inputs[k].0.as_str());
        proof {
            assert(input_names(vector.inputs@).take(k as int + 1) =~= input_names(vector.inputs@).take(k as int).push(vector.inputs@[k as int].0@));
            crate::text::lemma_to_set_push(input_names(vector.inputs@).take(k as int), vector.inputs@[k as int].0@);
        }
        k = k + 1;
    }
    proof {
        assert(input_names(vector.inputs@).take(k as int) =~= input_names(vector.inputs@));
        lemma_sorted_texts(texts(supplied@));
    }
    report_absent_inputs(diagnostics, &supplied, &declared, vector, method, true);
    report_absent_inputs(diagnostics, &declared, &supplied, vector, method, false);
}

// ----- expectations -----

/// What checking the expected outcome finds.
pub open spec fn expectation_findings(documents: ProfileDocuments, v: VectorDocument) -> Seq<Finding> {
    let e = v.expected;
    let label = vector_label(v);
    (match e.outcome {
        ExpectedResult::Success =>
            (if e.failure is Some {
                seq![vdefect(label + " expects success but names a "@ + "failure"@ + ", so it asserts both outcomes at once"@, "field"@, "failure"@)]
            } else { seq![] })
            + (if e.failure_category is Some {
                seq![vdefect(label + " expects success but names a "@ + "failure_category"@ + ", so it asserts both outcomes at once"@, "field"@, "failure_category"@)]
            } else { seq![] }),
        ExpectedResult::Failure =>
            (if e.failure is None && e.failure_category is None {
                seq![vdefect(label + " expects failure but names no failure and no failure category, so any failure \u{2014} including an unrelated one \u{2014} would satisfy it"@, "field"@, "failure"@)]
            } else { seq![] })
            + (if e.events.required@.len() != 0 {
                seq![vdefect(label + " expects failure and also requires an event, but a refused operation must not have produced one"@, "field"@, "events.required"@)]
            } else { seq![] }),
    })
        + (match e.failure {
            Some(f) => absent_findings(seq![f@], failure_ids(documents.failures.failures@), unknown_failure(v)),
            None => seq![],
        })
        + absent_findings(texts(e.invariants@), invariant_ids(documents.invariants.invariants@), unknown_invariant(v))
        + absent_findings(required_event_ids(e.events.required@), event_ids(documents.events.events@), unknown_event(v))
        + absent_findings(texts(e.events.forbidden@), event_ids(documents.events.events@), unknown_event(v))
        + (if v.authorization.expected == AuthorizationExpectation::NotRequired && v.authorization.actors@.len() != 0 {
            seq![vdefect(label + " expects authorization to be unnecessary but lists "@ + crate::text::spec_decimal(v.authorization.actors@.len())
                + " signer(s)"@, "field"@, "authorization.actors"@)]
        } else { seq![] })
}

/// The event ids the required events name, in order.
pub open spec fn required_event_ids(required: Seq<EventExpectation>) -> Seq<Seq<char>> {
    required.map_values(|r: EventExpectation| r.event@)
}

/// What an undeclared failure is reported as.
pub open spec fn unknown_failure(v: VectorDocument) -> spec_fn(Seq<char>) -> Finding {
    |f: Seq<char>| vdefect(vector_label(v) + " expects the failure "@ + debug_text(f) + ", which the profile does not declare"@, "failure"@, f)
}

/// What an undeclared invariant is reported as.
pub open spec fn unknown_invariant(v: VectorDocument) -> spec_fn(Seq<char>) -> Finding {
    |i: Seq<char>| vdefect(vector_label(v) + " requires the invariant "@ + debug_text(i) + ", which the profile does not declare"@, "invariant"@, i)
}

/// What an undeclared event is reported as.
pub open spec fn unknown_event(v: VectorDocument) -> spec_fn(Seq<char>) -> Finding {
    |e: Seq<char>| vdefect(vector_label(v) + " refers to the event "@ + debug_text(e) + ", which the profile does not declare"@, "event"@, e)
}

/// Reports every id in `ids` that no item of a document declares; `kind` says which
/// document: `0` failures, `1` invariants, `2` events.
fn report_unknown(diagnostics: &mut Diagnostics, documents: &ProfileDocuments, vector: &VectorDocument, ids: &Vec<String>, kind: u8)
    requires
        kind < 3,
    ensures
        final(diagnostics)@ == old(diagnostics)@ + absent_findings(texts(ids@),
            if kind == 0 { failure_ids(documents.failures.failures@) } else if kind == 1 { invariant_ids(documents.invariants.invariants@) } else { event_ids(documents.events.events@) },
            if kind == 0 { unknown_failure(*vector) } else if kind == 1 { unknown_invariant(*vector) } else { unknown_event(*vector) }),
{
    let ghost known = if kind == 0 { failure_ids(documents.failures.failures@) } else if kind == 1 { invariant_ids(documents.invariants.invariants@) } else { event_ids(documents.events.events@) };
    let ghost mk = if kind == 0 { unknown_failure(*vector) } else if kind == 1 { unknown_invariant(*vector) } else { unknown_event(*vector) };
    let ghost start = diagnostics@;
    let mut i: usize = 0;
    while i < ids.len()
        invariant
            kind < 3,
            known == (if kind == 0 { failure_ids(documents.failures.failures@) } else if kind == 1 { invariant_ids(documents.invariants.invariants@) } else { event_ids(documents.events.events@) }),
            mk == (if kind == 0 { unknown_failure(*vector) } else if kind == 1 { unknown_invariant(*vector) } else { unknown_event(*vector) }),
            i <= ids@.len(),
            diagnostics@ == start + absent_findings(texts(ids@).take(i as int), known, mk),
        decreases ids@.len() - i,
    {
        let ghost before = diagnostics@;
        let id = ids[i].as_str();
        proof {
            assert(seq![id@].drop_last() =~= Seq::<Seq<char>>::empty());
            assert(absent_findings(Seq::<Seq<char>>::empty(), known, mk) =~= Seq::<Finding>::empty());
            assert(texts(ids@)[i as int] == id@);
            lemma_first_with_id_none(known, id@);
        }
        let missing = if kind == 0 {
            documents.failure(id).is_none()
        } else if kind == 1 {
            documents.invariant_by_id(id).is_none()
        } else {
            documents.event(id).is_none()
        };
        if missing {
            let mut message = owned("vector ");
            push_str(&mut message, quoted(vector.id.as_str()).as_str());
            if kind == 0 {
                push_str(&mut message, " expects the failure ");
                push_str(&mut message, quoted(id).as_str());
                push_str(&mut message, ", which the profile does not declare");
                fail(diagnostics, message, "failure", id);
            } else if kind == 1 {
                push_str(&mut message, " requires the invariant ");
                push_str(&mut message, quoted(id).as_str());
                push_str(&mut message, ", which the profile does not declare");
                fail(diagnostics, message, "invariant", id);
            } else {
                push_str(&mut message, " refers to the event ");
                push_str(&mut message, quoted(id).as_str());
                push_str(&mut message, ", which the profile does not declare");
                fail(diagnostics, message, "event", id);
            }
            proof { assert(diagnostics@ =~= before + seq![mk(id@)]); }
        } else {
            proof { assert(diagnostics@ =~= before + Seq::<Finding>::empty()); }
        }
        proof { lemma_absent_step(texts(ids@), known, mk, i as int, start, before, diagnostics@); }
        i = i + 1;
    }
    proof { assert(texts(ids@).take(i as int) =~= texts(ids@)); }
}

/// Checks the expected outcome's references into the profile and its own consistency.
fn check_expectations(diagnostics: &mut Diagnostics, documents: &ProfileDocuments, vector: &VectorDocument)
    ensures
        final(diagnostics)@ == old(diagnostics)@ + expectation_findings(*documents, *vector),
{
    let ghost start = diagnostics@;
    let expected = &vector.expected;
    let mut label = owned("vector ");
    push_str(&mut label, quoted(vector.id.as_str()).as_str());
    match expected.outcome {
        ExpectedResult::Success => {
            if expected.failure.is_some() {
                let mut message = label.clone();
                push_str(&mut message, " expects success but names a ");
                push_str(&mut message, "failure");
                push_str(&mut message, ", so it asserts both outcomes at once");
                fail(diagnostics, message, "field", "failure");
            }
            if expected.failure_category.is_some() {
                let mut message = label.clone();
                push_str(&mut message, " expects success but names a ");
                push_str(&mut message, "failure_category");
                push_str(&mut message, ", so it asserts both outcomes at once");
                fail(diagnostics, message, "field", "failure_category");
            }
        },
        ExpectedResult::Failure => {
            if expected.failure.is_none() && expected.failure_category.is_none() {
                let mut message = label.clone();
                push_str(&mut message, " expects failure but names no failure and no failure category, so any failure \u{2014} including an unrelated one \u{2014} would satisfy it");
                fail(diagnostics, message, "field", "failure");
            }
            if expected.events.required.len() != 0 {
                let mut message = label.clone();
                push_str(&mut message, " expects failure and also requires an event, but a refused operation must not have produced one");
                fail(diagnostics, message, "field", "events.required");
            }
        },
    }
    let ghost d1 = diagnostics@;
    match &expected.failure {
        Some(f) => {
            let mut one: Vec<String> = Vec::new();
            one.push(f.clone());
            proof { assert(texts(one@) =~= seq![f@]); }
            report_unknown(diagnostics, documents, vector, &one, 0);
        },
        None => {
            proof { assert(d1 =~= d1 + Seq::<Finding>::empty()); }
        },
    }
    report_unknown(diagnostics, documents, vector, &expected.invariants, 1);
    let mut required: Vec<String> = Vec::new();
    let mut r: usize = 0;
    while r < expected.events.required.len()
        invariant
            r <= expected.events.required@.len(),
            texts(required@) == required_event_ids(expected.events.required@).take(r as int),
        decreases expected.events.required@.len() - r,
    {
        let ghost before = required@;
        required.push(expected.events.required[r].event.clone());
        proof {
            assert(texts(required@) =~= texts(before).push(expected.events.required@[r as int].event@));
            assert(required_event_ids(expected.events.required@).take(r as int + 1)
                =~= required_event_ids(expected.events.required@).take(r as int).push(expected.events.required@[r as int].event@));
        }
        r = r + 1;
    }
    proof { assert(required_event_ids(expected.events.required@).take(r as int) =~= required_event_ids(expected.events.required@)); }
    report_unknown(diagnostics, documents, vector, &required, 2);
    report_unknown(diagnostics, documents, vector, &expected.events.forbidden, 2);
    if vector.authorization.expected == AuthorizationExpectation::NotRequired && vector.authorization.actors.len() != 0 {
        let mut message = label.clone();
        push_str(&mut message, " expects authorization to be unnecessary but lists ");
        push_str(&mut message, decimal_text(vector.authorization.actors.len() as u64).as_str());
        push_str(&mut message, " signer(s)");
        fail(diagnostics, message, "field", "authorization.actors");
    }
    proof { assert(diagnostics@ =~= start + expectation_findings(*documents, *vector)); }
}

// ----- expressions -----

/// What a reference to an undeclared actor in an expression is reported as.
pub open spec fn undeclared_actor(v: VectorDocument) -> spec_fn(Seq<char>) -> Finding {
    |a: Seq<char>| vdefect(vector_label(v) + " refers to the fixture actor "@ + debug_text(a)
        + ", which it does not declare; a run would be measuring a world the vector never described"@, "actor"@, a)
}

/// What a read of an undeclared method is reported as.
pub open spec fn undeclared_read(v: VectorDocument) -> spec_fn(Seq<char>) -> Finding {
    |m: Seq<char>| vdefect(vector_label(v) + " reads "@ + debug_text(m)
        + " to observe state, but the profile does not declare that method; the observation cannot be made"@, "read"@, m)
}

/// What checking the expressions finds: every undeclared actor they name, then every
/// undeclared method they read, each in name order.
pub open spec fn expression_findings(documents: ProfileDocuments, v: VectorDocument) -> Seq<Finding> {
    absent_findings(sorted_texts(referenced_actors(v)), actor_names(v), undeclared_actor(v))
        + absent_findings(sorted_texts(referenced_reads(v)), method_ids(documents.methods.methods@), undeclared_read(v))
}

/// Checks every fixture and method name an expression refers to.
fn check_expressions(diagnostics: &mut Diagnostics, documents: &ProfileDocuments, vector: &VectorDocument, actors: &Vec<String>)
    requires
        texts(actors@) == actor_names(*vector),
    ensures
        final(diagnostics)@ == old(diagnostics)@ + expression_findings(*documents, *vector),
{
    let (referenced, reads) = collect_references(vector);
    let ghost start = diagnostics@;
    let mut i: usize = 0;
    while i < referenced.len()
        invariant
            texts(actors@) == actor_names(*vector),
            i <= referenced@.len(),
            diagnostics@ == start + absent_findings(texts(referenced@).take(i as int), actor_names(*vector), undeclared_actor(*vector)),
        decreases referenced@.len() - i,
    {
        let ghost before = diagnostics@;
        let a = referenced[i].as_str();
        proof {
            assert(seq![a@].drop_last() =~= Seq::<Seq<char>>::empty());
            assert(absent_findings(Seq::<Seq<char>>::empty(), actor_names(*vector), undeclared_actor(*vector)) =~= Seq::<Finding>::empty());
            assert(texts(referenced@)[i as int] == a@);
        }
        if !contains_text(actors, a) {
            let mut message = owned("vector ");
            push_str(&mut message, quoted(vector.id.as_str()).as_str());
            push_str(&mut message, " refers to the fixture actor ");
            push_str(&mut message, quoted(a).as_str());
            push_str(&mut message, ", which it does not declare; a run would be measuring a world the vector never described");
            fail(diagnostics, message, "actor", a);
            proof { assert(diagnostics@ =~= before + seq![undeclared_actor(*vector)(a@)]); }
        } else {
            proof { assert(diagnostics@ =~= before + Seq::<Finding>::empty()); }
        }
        proof { lemma_absent_step(texts(referenced@), actor_names(*vector), undeclared_actor(*vector), i as int, start, before, diagnostics@); }
        i = i + 1;
    }
    proof { assert(texts(referenced@).take(i as int) =~= texts(referenced@)); }
    let ghost mid = diagnostics@;
    let ghost known = method_ids(documents.methods.methods@);
    let mut k: usize = 0;
    while k < reads.len()
        invariant
            known == method_ids(documents.methods.methods@),
            k <= reads@.len(),
            diagnostics@ == mid + absent_findings(texts(reads@).take(k as int), known, undeclared_read(*vector)),
        decreases reads@.len() - k,
    {
        let ghost before = diagnostics@;
        let m = reads[k].as_str();
        proof {
            assert(seq![m@].drop_last() =~= Seq::<Seq<char>>::empty());
            assert(absent_findings(Seq::<Seq<char>>::empty(), known, undeclared_read(*vector)) =~= Seq::<Finding>::empty());
            assert(texts(reads@)[k as int] == m@);
            lemma_first_with_id_none(known, m@);
        }
        if documents.method(m).is_none() {
            let mut message = owned("vector ");
            push_str(&mut message, quoted(vector.id.as_str()).as_str());
            push_str(&mut message, " reads ");
            push_str(&mut message, quoted(m).as_str());
            push_str(&mut message, " to observe state, but the profile does not declare that method; the observation cannot be made");
            fail(diagnostics, message, "read", m);
            proof { assert(diagnostics@ =~= before + seq![undeclared_read(*vector)(m@)]); }
        } else {
            proof { assert(diagnostics@ =~= before + Seq::<Finding>::empty()); }
        }
        proof { lemma_absent_step(texts(reads@), known, undeclared_read(*vector), k as int, mid, before, diagnostics@); }
        k = k + 1;
    }
    proof { assert(texts(reads@).take(k as int) =~= texts(reads@)); }
}

// ----- the whole vector -----

/// Every finding about a vector checked against a bundle: a vector attributed to
/// another profile or pinned to another version; its fixture actors; and, when the
/// profile declares the method it exercises, its inputs, its expected outcome and its
/// expressions. An undeclared method ends the check, since everything after it would be
/// a consequence of it.
pub open spec fn spec_validate(bundle: ProfileBundle, v: VectorDocument) -> Seq<Finding> {
    let doc = bundle.spec_document();
    let documents = bundle.spec_documents();
    let label = vector_label(v);
    let wildcard = v.profile@ == "*"@;
    let profile_id = doc.profile.id@;
    let expected_version = if wildcard { doc.estamora_spec_version@ } else { doc.profile.version@ };
    let head = (if !wildcard && v.profile@ != profile_id {
        seq![vdefect(label + " declares profile "@ + debug_text(v.profile@) + " but was found under "@ + debug_text(profile_id), "vector"@, v.id@)]
    } else { seq![] })
        + (if v.profile_version@ != expected_version {
            seq![vdefect(label + " was written against version "@ + debug_text(v.profile_version@)
                + " but the requirement set is at "@ + debug_text(expected_version), "vector"@, v.id@)]
        } else { seq![] })
        + actor_findings(v);
    match first_with_id(method_ids(documents.methods.methods@), v.method@) {
        None => head.push(vdefect(label + " exercises method "@ + debug_text(v.method@) + ", which the profile does not declare"@, "method"@, v.method@)),
        Some(i) => head + input_findings(v, documents.methods.methods@[i]) + expectation_findings(documents, v) + expression_findings(documents, v),
    }
}

/// Reports every reference in `vector` that the profile cannot resolve.
pub fn validate(bundle: &ProfileBundle, vector: &VectorDocument) -> (res: Diagnostics)
    ensures
        res@ == spec_validate(*bundle, *vector),
{
    let mut diagnostics = Diagnostics::new();
    let documents = bundle.documents();
    let document = bundle.document();
    let wildcard = str_eq(vector.profile.as_str(), "*");
    let mut label = owned("vector ");
    push_str(&mut label, quoted(vector.id.as_str()).as_str());
    if !wildcard && !str_eq(vector.profile.as_str(), document.profile.id.as_str()) {
        let mut message = label.clone();
        push_str(&mut message, " declares profile ");
        push_str(&mut message, quoted(vector.profile.as_str()).as_str());
        push_str(&mut message, " but was found under ");
        push_str(&mut message, quoted(document.profile.id.as_str()).as_str());
        fail(&mut diagnostics, message, "vector", vector.id.as_str());
    }
    let expected_version = if wildcard { bundle.spec_version_text() } else { document.profile.version.as_str() };
    if !str_eq(vector.profile_version.as_str(), expected_version) {
        let mut message = label.clone();
        push_str(&mut message, " was written against version ");
        push_str(&mut message, quoted(vector.profile_version.as_str()).as_str());
        push_str(&mut message, " but the requirement set is at ");
        push_str(&mut message, quoted(expected_version).as_str());
        fail(&mut diagnostics, message, "vector", vector.id.as_str());
    }
    let actors = check_actors(&mut diagnostics, vector);
    let ghost head = diagnostics@;
    let method = match documents.method(vector.method.as_str()) {
        Some(m) => m,
        None => {
            let mut message = label.clone();
            push_str(&mut message, " exercises method ");
            push_str(&mut message, quoted(vector.method.as_str()).as_str());
            push_str(&mut message, ", which the profile does not declare");
            fail(&mut diagnostics, message, "method", vector.method.as_str());
            proof {
                reveal_strlit("*");
                assert(head =~= (if !(vector.profile@ == "*"@) && vector.profile@ != document.profile.id@ {
                    seq![vdefect(vector_label(*vector) + " declares profile "@ + debug_text(vector.profile@) + " but was found under "@ + debug_text(document.profile.id@), "vector"@, vector.id@)]
                } else { seq![] }) + (if vector.profile_version@ != expected_version@ {
                    seq![vdefect(vector_label(*vector) + " was written against version "@ + debug_text(vector.profile_version@)
                        + " but the requirement set is at "@ + debug_text(expected_version@), "vector"@, vector.id@)]
                } else { seq![] }) + actor_findings(*vector));
            }
            return diagnostics;
        },
    };
    check_inputs(&mut diagnostics, vector, method);
    check_expectations(&mut diagnostics, documents, vector);
    check_expressions(&mut diagnostics, documents, vector, &actors);
    proof { assert(diagnostics@ =~= spec_validate(*bundle, *vector)); }
    diagnostics
}

/// Whether a finding refuses a vector for a reference it cannot resolve: an
/// error-severity vector finding whose message quotes the reference and whose context
/// names the field and the reference.
pub open spec fn reports_reference(f: Finding, field: Seq<char>, reference: Seq<char>) -> bool {
    &&& f.severity == Severity::Error
    &&& f.class == ErrorClass::VectorError
    &&& f.context == seq![("field"@, field), ("reference"@, reference)]
    &&& occurs_in(debug_text(reference), f.message)
}

proof fn lemma_concat_contains<A>(x: A)
    ensures
        forall|a: Seq<A>, b: Seq<A>| (a.contains(x) || b.contains(x)) ==> #[trigger] (a + b).contains(x),
{
    assert forall|a: Seq<A>, b: Seq<A>| (a.contains(x) || b.contains(x)) implies #[trigger] (a + b).contains(x) by {
        if a.contains(x) {
            let i = choose|i: int| 0 <= i < a.len() && a[i] == x;
            assert((a + b)[i] == x);
        } else {
            let i = choose|i: int| 0 <= i < b.len() && b[i] == x;
            assert((a + b)[a.len() + i] == x);
        }
    }
}

proof fn lemma_absent_reported(list: Seq<Seq<char>>, known: Seq<Seq<char>>, mk: spec_fn(Seq<char>) -> Finding, x: Seq<char>)
    requires
        list.contains(x),
        !known.contains(x),
    ensures
        absent_findings(list, known, mk).contains(mk(x)),
    decreases list.len(),
{
    let found = absent_findings(list, known, mk);
    if list.last() == x {
        assert(found.last() == mk(x));
        assert(found[found.len() - 1] == mk(x));
    } else {
        let i = choose|i: int| 0 <= i < list.len() && list[i] == x;
        assert(list.drop_last()[i] == x);
        lemma_absent_reported(list.drop_last(), known, mk, x);
        let prefix = absent_findings(list.drop_last(), known, mk);
        let j = choose|j: int| 0 <= j < prefix.len() && prefix[j] == mk(x);
        if !known.contains(list.last()) {
            assert(found[j] == mk(x));
        }
    }
}

proof fn lemma_quoted_in_middle(a: Seq<char>, b: Seq<char>, c: Seq<char>)
    ensures
        occurs_in(b, a + b + c),
{
    let whole = a + b + c;
    assert(whole.subrange(a.len() as int, a.len() as int + b.len()) =~= b);
}

/// A vector can only refer to what its profile declares: for a vector whose method the
/// profile declares, an event it requires or forbids, an invariant it requires, or the
/// failure it expects that no declaration of the profile carries is reported, as an
/// error-severity vector finding that quotes the reference and names its field.
pub proof fn law_an_undeclared_reference_is_reported(bundle: ProfileBundle, v: VectorDocument, id: Seq<char>)
    requires
        exists|k: int| 0 <= k < bundle.spec_documents().methods.methods@.len()
            && (#[trigger] bundle.spec_documents().methods.methods@[k]).id@ == v.method@,
    ensures
        (exists|k: int| 0 <= k < v.expected.events.required@.len() && (#[trigger] v.expected.events.required@[k]).event@ == id)
            && (forall|k: int| 0 <= k < bundle.spec_documents().events.events@.len()
                ==> (#[trigger] bundle.spec_documents().events.events@[k]).id@ != id)
            ==> exists|i: int| 0 <= i < spec_validate(bundle, v).len()
                && reports_reference(#[trigger] spec_validate(bundle, v)[i], "event"@, id),
        (exists|k: int| 0 <= k < v.expected.events.forbidden@.len() && (#[trigger] v.expected.events.forbidden@[k])@ == id)
            && (forall|k: int| 0 <= k < bundle.spec_documents().events.events@.len()
                ==> (#[trigger] bundle.spec_documents().events.events@[k]).id@ != id)
            ==> exists|i: int| 0 <= i < spec_validate(bundle, v).len()
                && reports_reference(#[trigger] spec_validate(bundle, v)[i], "event"@, id),
        (exists|k: int| 0 <= k < v.expected.invariants@.len() && (#[trigger] v.expected.invariants@[k])@ == id)
            && (forall|k: int| 0 <= k < bundle.spec_documents().invariants.invariants@.len()
                ==> (#[trigger] bundle.spec_documents().invariants.invariants@[k]).id@ != id)
            ==> exists|i: int| 0 <= i < spec_validate(bundle, v).len()
                && reports_reference(#[trigger] spec_validate(bundle, v)[i], "invariant"@, id),
        (v.expected.failure matches Some(f) && f@ == id)
            && (forall|k: int| 0 <= k < bundle.spec_documents().failures.failures@.len()
                ==> (#[trigger] bundle.spec_documents().failures.failures@[k]).id@ != id)
            ==> exists|i: int| 0 <= i < spec_validate(bundle, v).len()
                && reports_reference(#[trigger] spec_validate(bundle, v)[i], "failure"@, id),
{
    let documents = bundle.spec_documents();
    let methods = method_ids(documents.methods.methods@);
    let mk = choose|k: int| 0 <= k < documents.methods.methods@.len() && (#[trigger] documents.methods.methods@[k]).id@ == v.method@;
    assert(methods[mk] == v.method@);
    lemma_first_with_id_none(methods, v.method@);
    let all = spec_validate(bundle, v);
    let label = vector_label(v);
    let e = v.expected;
    let events = event_ids(documents.events.events@);
    let invariants = invariant_ids(documents.invariants.invariants@);
    let failures = failure_ids(documents.failures.failures@);
    let required = required_event_ids(e.events.required@);
    let forbidden = texts(e.events.forbidden@);
    let wanted = texts(e.invariants@);
    if (exists|k: int| 0 <= k < e.events.required@.len() && (#[trigger] e.events.required@[k]).event@ == id)
        && (forall|k: int| 0 <= k < documents.events.events@.len() ==> (#[trigger] documents.events.events@[k]).id@ != id) {
        let k = choose|k: int| 0 <= k < e.events.required@.len() && (#[trigger] e.events.required@[k]).event@ == id;
        assert(required[k] == id);
        if events.contains(id) {
            let j = choose|j: int| 0 <= j < events.len() && events[j] == id;
            assert(documents.events.events@[j].id@ == id);
        }
        let finding = unknown_event(v)(id);
        lemma_absent_reported(required, events, unknown_event(v), id);
        lemma_concat_contains(finding);
        assert(all.contains(finding));
        let i = choose|i: int| 0 <= i < all.len() && all[i] == finding;
        lemma_quoted_in_middle(label + " refers to the event "@, debug_text(id), ", which the profile does not declare"@);
        assert(reports_reference(all[i], "event"@, id));
    }
    if (exists|k: int| 0 <= k < e.events.forbidden@.len() && (#[trigger] e.events.forbidden@[k])@ == id)
        && (forall|k: int| 0 <= k < documents.events.events@.len() ==> (#[trigger] documents.events.events@[k]).id@ != id) {
        let k = choose|k: int| 0 <= k < e.events.forbidden@.len() && (#[trigger] e.events.forbidden@[k])@ == id;
        assert(forbidden[k] == id);
        if events.contains(id) {
            let j = choose|j: int| 0 <= j < events.len() && events[j] == id;
            assert(documents.events.events@[j].id@ == id);
        }
        let finding = unknown_event(v)(id);
        lemma_absent_reported(forbidden, events, unknown_event(v), id);
        lemma_concat_contains(finding);
        assert(all.contains(finding));
        let i = choose|i: int| 0 <= i < all.len() && all[i] == finding;
        lemma_quoted_in_middle(label + " refers to the event "@, debug_text(id), ", which the profile does not declare"@);
        assert(reports_reference(all[i], "event"@, id));
    }
    if (exists|k: int| 0 <= k < e.invariants@.len() && (#[trigger] e.invariants@[k])@ == id)
        && (forall|k: int| 0 <= k < documents.invariants.invariants@.len() ==> (#[trigger] documents.invariants.invariants@[k]).id@ != id) {
        let k = choose|k: int| 0 <= k < e.invariants@.len() && (#[trigger] e.invariants@[k])@ == id;
        assert(wanted[k] == id);
        if invariants.contains(id) {
            let j = choose|j: int| 0 <= j < invariants.len() && invariants[j] == id;
            assert(documents.invariants.invariants@[j].id@ == id);
        }
        let finding = unknown_invariant(v)(id);
        lemma_absent_reported(wanted, invariants, unknown_invariant(v), id);
        lemma_concat_contains(finding);
        assert(all.contains(finding));
        let i = choose|i: int| 0 <= i < all.len() && all[i] == finding;
        lemma_quoted_in_middle(label + " requires the invariant "@, debug_text(id), ", which the profile does not declare"@);
        assert(reports_reference(all[i], "invariant"@, id));
    }
    if (e.failure matches Some(f) && f@ == id)
        && (forall|k: int| 0 <= k < documents.failures.failures@.len() ==> (#[trigger] documents.failures.failures@[k]).id@ != id) {
        if failures.contains(id) {
            let j = choose|j: int| 0 <= j < failures.len() && failures[j] == id;
            assert(documents.failures.failures@[j].id@ == id);
        }
        let finding = unknown_failure(v)(id);
        assert(seq![id][0] == id);
        lemma_absent_reported(seq![id], failures, unknown_failure(v), id);
        lemma_concat_contains(finding);
        assert(all.contains(finding));
        let i = choose|i: int| 0 <= i < all.len() && all[i] == finding;
        lemma_quoted_in_middle(label + " expects the failure "@, debug_text(id), ", which the profile does not declare"@);
        assert(reports_reference(all[i], "failure"@, id));
    }
}

} // verus!

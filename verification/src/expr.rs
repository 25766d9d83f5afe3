//! The expression algebra requirements are written in.
//!
//! A profile's behaviour and invariants and a vector's expectations compare values
//! read from a contract with literals, inputs and fixture actors. Both documents use
//! the same algebra, so that `equal` means one thing wherever it is written.
use vstd::prelude::*;

verus! {

/// A literal as a document writes it: a string, an integer or a boolean.
#[derive(Debug, PartialEq)]
pub enum Literal {
    /// A string, which is also how every exact quantity is written.
    Text(String),
    /// A bare integer.
    Integer(i64),
    /// A boolean.
    Boolean(bool),
}

/// An arithmetic operator.
#[derive(Debug, Clone, Copy, PartialEq, Eq, Structural)]
pub enum ArithmeticOp {
    /// The sum of the operands.
    Add,
    /// The first operand less the others.
    Subtract,
    /// The product of the operands.
    Multiply,
}

/// The direction a relative comparison measures.
#[derive(Debug, Clone, Copy, PartialEq, Eq, Structural)]
pub enum DeltaDirection {
    /// The value grew.
    Increase,
    /// The value shrank.
    Decrease,
}

/// A value a requirement compares.
#[derive(Debug, PartialEq)]
pub enum ValueExpr {
    /// A literal.
    Literal {
        /// The value.
        value: Literal,
    },
    /// One of the call's inputs, by argument name.
    Input {
        /// The argument's name.
        name: String,
    },
    /// A fixture actor's address.
    Actor {
        /// The actor's name.
        actor: String,
    },
    /// What a read-only method returns.
    Read {
        /// The method read.
        method: String,
        /// Its arguments.
        args: Vec<ValueExpr>,
    },
    /// The sum over a resource set.
    Sum {
        /// The resource set.
        over: String,
    },
    /// A field of a structured value.
    Field {
        /// The structured value.
        of: Box<ValueExpr>,
        /// The field's name.
        name: String,
    },
    /// The ledger sequence the operation ran at.
    LedgerSequence,
    /// The member of a resource set an invariant is evaluated for.
    ResourceMember,
    /// The ledger at which an allowance expires.
    AllowanceExpiry {
        /// The holder granting it.
        from: Box<ValueExpr>,
        /// The account receiving it.
        spender: Box<ValueExpr>,
    },
    /// An arithmetic combination.
    Arithmetic {
        /// The operator.
        op: ArithmeticOp,
        /// The operands, in order.
        operands: Vec<ValueExpr>,
    },
}

/// A condition over values.
#[derive(Debug, PartialEq)]
pub enum Predicate {
    /// The two values are equal.
    Equal { left: ValueExpr, right: ValueExpr },
    /// The two values differ.
    NotEqual { left: ValueExpr, right: ValueExpr },
    /// The left value is smaller.
    LessThan { left: ValueExpr, right: ValueExpr },
    /// The left value is not larger.
    LessOrEqual { left: ValueExpr, right: ValueExpr },
    /// The left value is larger.
    GreaterThan { left: ValueExpr, right: ValueExpr },
    /// The left value is not smaller.
    GreaterOrEqual { left: ValueExpr, right: ValueExpr },
    /// The value is one of the allowed ones.
    OneOf { value: ValueExpr, allowed: Vec<ValueExpr> },
    /// The value lies in a closed range.
    InRange { value: ValueExpr, min: ValueExpr, max: ValueExpr },
    /// The target changed in a direction, by a magnitude where one is given.
    Delta { target: ValueExpr, direction: DeltaDirection, by: Option<ValueExpr> },
    /// The target did not change.
    Unchanged { target: ValueExpr },
    /// Every inner predicate holds.
    AllOf { predicates: Vec<Predicate> },
    /// Some inner predicate holds.
    AnyOf { predicates: Vec<Predicate> },
    /// The inner predicate does not hold.
    Not { predicate: Box<Predicate> },
}

/// The fixture actors a value expression names.
pub open spec fn value_actors(e: ValueExpr) -> Set<Seq<char>>
    decreases e,
{
    match e {
        ValueExpr::Actor { actor } => set![actor@],
        ValueExpr::Read { method, args } => values_actors(args@),
        ValueExpr::Field { of, name } => value_actors(*of),
        ValueExpr::AllowanceExpiry { from, spender } => value_actors(*from).union(value_actors(*spender)),
        ValueExpr::Arithmetic { op, operands } => values_actors(operands@),
        _ => Set::empty(),
    }
}

/// The fixture actors a list of value expressions names.
pub open spec fn values_actors(es: Seq<ValueExpr>) -> Set<Seq<char>>
    decreases es,
{
    if es.len() == 0 {
        Set::empty()
    } else {
        values_actors(es.drop_last()).union(value_actors(es.last()))
    }
}

/// The methods a value expression reads.
pub open spec fn value_reads(e: ValueExpr) -> Set<Seq<char>>
    decreases e,
{
    match e {
        ValueExpr::Read { method, args } => set![method@].union(values_reads(args@)),
        ValueExpr::Field { of, name } => value_reads(*of),
        ValueExpr::AllowanceExpiry { from, spender } => value_reads(*from).union(value_reads(*spender)),
        ValueExpr::Arithmetic { op, operands } => values_reads(operands@),
        _ => Set::empty(),
    }
}

/// The methods a list of value expressions reads.
pub open spec fn values_reads(es: Seq<ValueExpr>) -> Set<Seq<char>>
    decreases es,
{
    if es.len() == 0 {
        Set::empty()
    } else {
        values_reads(es.drop_last()).union(value_reads(es.last()))
    }
}

/// The value expressions a predicate compares directly, not counting inner predicates.
pub open spec fn operands_of(p: Predicate) -> Seq<ValueExpr> {
    match p {
        Predicate::Equal { left, right } | Predicate::NotEqual { left, right }
        | Predicate::LessThan { left, right } | Predicate::LessOrEqual { left, right }
        | Predicate::GreaterThan { left, right } | Predicate::GreaterOrEqual { left, right } => seq![left, right],
        Predicate::OneOf { value, allowed } => seq![value] + allowed@,
        Predicate::InRange { value, min, max } => seq![value, min, max],
        Predicate::Delta { target, direction, by } => match by {
            Some(magnitude) => seq![target, magnitude],
            None => seq![target],
        },
        Predicate::Unchanged { target } => seq![target],
        _ => seq![],
    }
}

/// The fixture actors a predicate names, through every inner predicate.
pub open spec fn predicate_actors(p: Predicate) -> Set<Seq<char>>
    decreases p,
{
    match p {
        Predicate::AllOf { predicates } => predicates_actors(predicates@),
        Predicate::AnyOf { predicates } => predicates_actors(predicates@),
        Predicate::Not { predicate } => predicate_actors(*predicate),
        _ => values_actors(operands_of(p)),
    }
}

/// The fixture actors a list of predicates names.
pub open spec fn predicates_actors(ps: Seq<Predicate>) -> Set<Seq<char>>
    decreases ps,
{
    if ps.len() == 0 {
        Set::empty()
    } else {
        predicates_actors(ps.drop_last()).union(predicate_actors(ps.last()))
    }
}

/// The methods a predicate reads, through every inner predicate.
pub open spec fn predicate_reads(p: Predicate) -> Set<Seq<char>>
    decreases p,
{
    match p {
        Predicate::AllOf { predicates } => predicates_reads(predicates@),
        Predicate::AnyOf { predicates } => predicates_reads(predicates@),
        Predicate::Not { predicate } => predicate_reads(*predicate),
        _ => values_reads(operands_of(p)),
    }
}

/// The methods a list of predicates reads.
pub open spec fn predicates_reads(ps: Seq<Predicate>) -> Set<Seq<char>>
    decreases ps,
{
    if ps.len() == 0 {
        Set::empty()
    } else {
        predicates_reads(ps.drop_last()).union(predicate_reads(ps.last()))
    }
}

} // verus!

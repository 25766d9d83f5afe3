//! The ledger point a run executes at, and the allowances its fixture granted.
//!
//! A run is pinned to one ledger sequence and one close time so that two runs of the
//! same fixture agree. When a fixture names no point, a recorded default is used.
use vstd::prelude::*;

use crate::taxonomy::{ErrorClass, Failure, context_view};
use crate::text::{owned, push_str, str_eq};

verus! {

/// The ledger sequence a run uses when a fixture does not name one.
pub const DEFAULT_LEDGER_SEQUENCE: u32 = 1000;

/// The ledger close time a run uses when a fixture does not name one:
/// `2026-01-15T12:00:00Z`, as seconds since the Unix epoch.
pub const DEFAULT_LEDGER_TIMESTAMP: u64 = 1768478400;

/// A point in ledger time.
#[derive(Debug, Clone, Copy, PartialEq, Eq, Structural)]
pub struct LedgerPoint {
    /// The ledger sequence number.
    pub sequence: u32,
    /// The ledger close time, in seconds since the Unix epoch.
    pub timestamp: u64,
}

impl LedgerPoint {
    /// A point at `sequence` and `timestamp`.
    pub fn new(sequence: u32, timestamp: u64) -> (res: Self)
        ensures
            res.sequence == sequence,
            res.timestamp == timestamp,
    {
        LedgerPoint { sequence, timestamp }
    }
}

impl Default for LedgerPoint {
    /// The recorded default point.
    fn default() -> (res: Self)
        ensures
            res.sequence == DEFAULT_LEDGER_SEQUENCE,
            res.timestamp == DEFAULT_LEDGER_TIMESTAMP,
    {
        LedgerPoint { sequence: DEFAULT_LEDGER_SEQUENCE, timestamp: DEFAULT_LEDGER_TIMESTAMP }
    }
}

/// An allowance a fixture granted, by actor names.
#[derive(Debug, PartialEq, Eq)]
pub struct AllowanceGrant {
    /// The holder granting it.
    pub from: String,
    /// The account receiving it.
    pub spender: String,
    /// The ledger at which it expires, when the fixture names one.
    pub live_until_ledger: Option<u32>,
}

/// The expiry of the first grant from `from` to `spender`, when there is such a grant
/// and it names one.
pub open spec fn spec_allowance_expiry(grants: Seq<AllowanceGrant>, from: Seq<char>, spender: Seq<char>) -> Option<u32>
    decreases grants.len(),
{
    if grants.len() == 0 {
        None
    } else if grants[0].from@ == from && grants[0].spender@ == spender {
        grants[0].live_until_ledger
    } else {
        spec_allowance_expiry(grants.drop_first(), from, spender)
    }
}

/// The ledger at which the fixture's allowance from `from` to `spender` expires: the
/// first matching grant's, and none when no grant matches or it names none.
pub fn allowance_expiry(grants: &Vec<AllowanceGrant>, from: &str, spender: &str) -> (res: Option<u32>)
    ensures
        res == spec_allowance_expiry(grants@, from@, spender@),
{
    let mut i: usize = 0;
    proof { assert(grants@.skip(0) =~= grants@); }
    while i < grants.len()
        invariant
            i <= grants@.len(),
            spec_allowance_expiry(grants@, from@, spender@) == spec_allowance_expiry(grants@.skip(i as int), from@, spender@),
        decreases grants@.len() - i,
    {
        proof {
            assert(grants@.skip(i as int)[0] == grants@[i as int]);
            assert(grants@.skip(i as int).drop_first() =~= grants@.skip(i as int + 1));
        }
        if str_eq(grants[i].from.as_str(), from) && str_eq(grants[i].spender.as_str(), spender) {
            return grants[i].live_until_ledger;
        }
        i = i + 1;
    }
    proof { assert(grants@.skip(i as int) =~= Seq::<AllowanceGrant>::empty()); }
    None
}

/// The resource set of every declared actor's balance.
pub const BALANCES: &'static str = "balances";

/// The resource set of every allowance the fixture granted.
pub const ALLOWANCES: &'static str = "allowances";

/// One read a resource set is made of: a read-only method and the actor names it is
/// called with.
#[derive(Debug, PartialEq, Eq)]
pub struct PlannedRead {
    /// The method read.
    pub method: String,
    /// Its arguments, as actor names.
    pub args: Vec<String>,
}

/// A planned read, as values.
pub open spec fn read_view(read: PlannedRead) -> (Seq<char>, Seq<Seq<char>>) {
    (read.method@, read.args@.map_values(|a: String| a@))
}

/// The reads that enumerate `resource`: one balance read per declared actor, or one
/// allowance read per granted allowance, in fixture order.
pub open spec fn spec_resource_reads(resource: Seq<char>, actors: Seq<String>, grants: Seq<AllowanceGrant>) -> Option<Seq<(Seq<char>, Seq<Seq<char>>)>> {
    if resource == "balances"@ {
        Some(actors.map_values(|a: String| ("balance"@, seq![a@])))
    } else if resource == "allowances"@ {
        Some(grants.map_values(|g: AllowanceGrant| ("allowance"@, seq![g.from@, g.spender@])))
    } else {
        None
    }
}

/// The refusal of a resource set nobody declared.
pub open spec fn not_enumerable_message(resource: Seq<char>) -> Seq<char> {
    "the resource set `"@ + resource + "` cannot be enumerated: Estamora reads only the sets a vector declares, because a contract's storage cannot be walked and inventing keys the profile never named would produce a result nobody can interpret"@
}

/// Plans the reads that enumerate a resource set an invariant ranges over. Only the
/// sets a fixture declares can be enumerated; any other is refused by name as an
/// execution failure, because a contract's storage cannot be walked.
pub fn resource_reads(resource: &str, actors: &Vec<String>, grants: &Vec<AllowanceGrant>) -> (res: Result<Vec<PlannedRead>, Failure>)
    ensures
        match spec_resource_reads(resource@, actors@, grants@) {
            Some(reads) => res matches Ok(planned) && planned@.map_values(|r: PlannedRead| read_view(r)) == reads,
            None => res matches Err(f) && f.class == ErrorClass::ExecutionError
                && f.message@ == not_enumerable_message(resource@)
                && context_view(f.context@) == seq![("resource"@, resource@)],
        },
{
    proof {
        reveal_strlit("balances");
        reveal_strlit("allowances");
        reveal_strlit("balance");
        reveal_strlit("allowance");
    }
    let mut planned: Vec<PlannedRead> = Vec::new();
    if str_eq(resource, BALANCES) {
        let mut i: usize = 0;
        while i < actors.len()
            invariant
                i <= actors@.len(),
                planned@.map_values(|r: PlannedRead| read_view(r))
                    == actors@.take(i as int).map_values(|a: String| ("balance"@, seq![a@])),
            decreases actors@.len() - i,
        {
            let ghost before = planned@;
            planned.push(PlannedRead { method: owned("balance"), args: vec![actors[i].clone()] });
            proof {
                let read = planned@.last();
                assert(read.args@.map_values(|a: String| a@) =~= seq![actors@[i as int]@]);
                assert(actors@.take(i as int + 1) =~= actors@.take(i as int).push(actors@[i as int]));
                assert(planned@.map_values(|r: PlannedRead| read_view(r))
                    =~= before.map_values(|r: PlannedRead| read_view(r)).push(read_view(read)));
                assert(actors@.take(i as int + 1).map_values(|a: String| ("balance"@, seq![a@]))
                    =~= actors@.take(i as int).map_values(|a: String| ("balance"@, seq![a@])).push(("balance"@, seq![actors@[i as int]@])));
            }
            i = i + 1;
        }
        proof { assert(actors@.take(i as int) =~= actors@); }
        return Ok(planned);
    }
    if str_eq(resource, ALLOWANCES) {
        let mut i: usize = 0;
        while i < grants.len()
            invariant
                i <= grants@.len(),
                planned@.map_values(|r: PlannedRead| read_view(r))
                    == grants@.take(i as int).map_values(|g: AllowanceGrant| ("allowance"@, seq![g.from@, g.spender@])),
            decreases grants@.len() - i,
        {
            let ghost before = planned@;
            planned.push(PlannedRead { method: owned("allowance"), args: vec![grants[i].from.clone(), grants[i].spender.clone()] });
            proof {
                let read = planned@.last();
                let g = grants@[i as int];
                assert(read.args@.map_values(|a: String| a@) =~= seq![g.from@, g.spender@]);
                assert(grants@.take(i as int + 1) =~= grants@.take(i as int).push(g));
                assert(planned@.map_values(|r: PlannedRead| read_view(r))
                    =~= before.map_values(|r: PlannedRead| read_view(r)).push(read_view(read)));
                assert(grants@.take(i as int + 1).map_values(|g: AllowanceGrant| ("allowance"@, seq![g.from@, g.spender@]))
                    =~= grants@.take(i as int).map_values(|g: AllowanceGrant| ("allowance"@, seq![g.from@, g.spender@])).push(("allowance"@, seq![g.from@, g.spender@])));
            }
            i = i + 1;
        }
        proof { assert(grants@.take(i as int) =~= grants@); }
        return Ok(planned);
    }
    let mut message = owned("the resource set `");
    push_str(&mut message, resource);
    push_str(&mut message, "` cannot be enumerated: Estamora reads only the sets a vector declares, because a contract's storage cannot be walked and inventing keys the profile never named would produce a result nobody can interpret");
    let failure = Failure::new(ErrorClass::ExecutionError, message).with_context("resource", owned(resource));
    proof { assert(context_view(failure.context@) =~= seq![("resource"@, resource@)]); }
    Err(failure)
}

} // verus!

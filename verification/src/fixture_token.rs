//! The in-repository fixture tokens, each wrong in exactly one way.
//!
//! Every fixture shares one implementation of the methods no defect changes, so two
//! fixtures can only differ where a defect says they do; `transfer` is the method the
//! defects are about. A refusal is a trap: it emits nothing and leaves the storage as it
//! found it. Whether the host accepted the authorization a method demands is decided
//! outside the token and handed in.
use vstd::prelude::*;

use crate::fixture::Defect;
use crate::token::{TokenState, TokenStorage, held, live_allowance};

verus! {

/// The number of decimal places every fixture reports.
pub const FIXTURE_DECIMALS: u32 = 7;

/// The name every fixture reports.
pub const FIXTURE_NAME: &'static str = "Conformance Token";

/// The symbol every fixture reports.
pub const FIXTURE_SYMBOL: &'static str = "CNF";

/// The event a transfer emits, under the topic `transfer`.
#[derive(Debug, Clone, Copy, PartialEq, Eq, Structural)]
pub struct TransferEvent {
    /// The account debited.
    pub from: u64,
    /// The account credited.
    pub to: u64,
    /// The amount the event states.
    pub amount: i128,
}

/// The event an allowance change emits, under the topic `approve`.
#[derive(Debug, Clone, Copy, PartialEq, Eq, Structural)]
pub struct ApproveEvent {
    /// The account granting the allowance.
    pub from: u64,
    /// The account receiving it.
    pub spender: u64,
    /// The allowance now in force.
    pub amount: i128,
    /// The ledger at which it lapses.
    pub live_until_ledger: u32,
}

/// The event a burn emits, under the topic `burn`.
#[derive(Debug, Clone, Copy, PartialEq, Eq, Structural)]
pub struct BurnEvent {
    /// The account whose balance was reduced.
    pub from: u64,
    /// The quantity removed.
    pub amount: i128,
}

/// An event a fixture publishes.
#[derive(Debug, Clone, Copy, PartialEq, Eq, Structural)]
pub enum FixtureEvent {
    Transfer(TransferEvent),
    Approve(ApproveEvent),
    Burn(BurnEvent),
}

/// Why a fixture's method trapped.
#[derive(Debug, Clone, Copy, PartialEq, Eq, Structural)]
pub enum Trap {
    /// The host refused the authorization the method demanded.
    Unauthorized,
    /// A negative amount.
    InvalidAmount,
    /// An allowance that lapses before the current ledger.
    InvalidLiveUntil,
    /// The allowance is short.
    InsufficientAllowance,
    /// The balance is short.
    InsufficientBalance,
}

impl Trap {
    /// The panic message the contract traps with.
    pub open spec fn spec_message(self) -> Seq<char> {
        match self {
            Trap::Unauthorized => "unauthorized"@,
            Trap::InvalidAmount => "invalid amount"@,
            Trap::InvalidLiveUntil => "invalid live_until_ledger"@,
            Trap::InsufficientAllowance => "insufficient allowance"@,
            Trap::InsufficientBalance => "insufficient balance"@,
        }
    }

    /// The panic message the contract traps with.
    pub fn message(self) -> (res: &'static str)
        ensures
            res@ == self.spec_message(),
    {
        match self {
            Trap::Unauthorized => "unauthorized",
            Trap::InvalidAmount => "invalid amount",
            Trap::InvalidLiveUntil => "invalid live_until_ledger",
            Trap::InsufficientAllowance => "insufficient allowance",
            Trap::InsufficientBalance => "insufficient balance",
        }
    }
}

/// What a call did: the events it published, or the trap that undid it.
pub type Outcome = Result<Seq<FixtureEvent>, Trap>;

/// The shared movement: debits `from`, then credits `to` from its balance as it stands
/// after the debit.
pub open spec fn moved(s: TokenState, from: u64, to: u64, debit: i128, credit: i128) -> TokenState {
    let debited = TokenState { balances: s.balances.insert(from, (held(s, from) - debit) as i128), ..s };
    TokenState { balances: debited.balances.insert(to, (held(debited, to) + credit) as i128), ..debited }
}

/// Whether the arithmetic of a movement stays within an `i128`.
pub open spec fn movement_fits(s: TokenState, from: u64, to: u64, debit: i128, credit: i128) -> bool {
    let debited = TokenState { balances: s.balances.insert(from, (held(s, from) - debit) as i128), ..s };
    &&& i128::MIN <= held(s, from) - debit <= i128::MAX
    &&& i128::MIN <= held(debited, to) + credit <= i128::MAX
}

/// What the recipient of a transfer of `amount` is credited with: one unit less for
/// the fixture that loses a unit, except that a transfer of zero credits zero.
pub open spec fn credited(defect: Defect, amount: i128) -> i128 {
    if defect is WrongCreditAmount && amount > 0 { (amount - 1) as i128 } else { amount }
}

/// The events a successful transfer of `amount` publishes.
pub open spec fn transfer_events(defect: Defect, from: u64, to: u64, amount: i128) -> Seq<FixtureEvent> {
    let event = FixtureEvent::Transfer(TransferEvent { from, to, amount });
    match defect {
        Defect::OmitsEvent => seq![],
        Defect::DoubleEmits => seq![event, event],
        Defect::WrongEventAmount => seq![FixtureEvent::Transfer(TransferEvent { from, to, amount: (amount + 1) as i128 })],
        _ => seq![event],
    }
}

/// Whether a transfer's arithmetic stays within an `i128` on the path where it moves
/// value.
pub open spec fn transfer_fits(defect: Defect, s: TokenState, from: u64, to: u64, amount: i128) -> bool {
    amount >= 0 ==> {
        &&& movement_fits(s, from, to, amount, credited(defect, amount))
        &&& (defect is WrongEventAmount ==> amount < i128::MAX)
    }
}

/// `transfer` on the fixture that is wrong in the way `defect` names.
pub open spec fn spec_transfer(defect: Defect, s: TokenState, authorized: bool, from: u64, to: u64, amount: i128) -> (TokenState, Outcome) {
    if !(defect is SkipsAuthorization) && !authorized {
        (s, Err(Trap::Unauthorized))
    } else if amount < 0 {
        (s, Err(Trap::InvalidAmount))
    } else if !(defect is AllowsOverdraft) && held(s, from) < amount {
        (s, Err(Trap::InsufficientBalance))
    } else {
        (moved(s, from, to, amount, credited(defect, amount)), Ok(transfer_events(defect, from, to, amount)))
    }
}

/// `approve`, the same on every fixture.
pub open spec fn spec_approve(s: TokenState, authorized: bool, from: u64, spender: u64, amount: i128, live_until: u32) -> (TokenState, Outcome) {
    if !authorized {
        (s, Err(Trap::Unauthorized))
    } else if amount < 0 {
        (s, Err(Trap::InvalidAmount))
    } else if live_until < s.sequence {
        (s, Err(Trap::InvalidLiveUntil))
    } else {
        (TokenState { grants: s.grants.insert((from, spender), (amount, live_until)), ..s },
            Ok(seq![FixtureEvent::Approve(ApproveEvent { from, spender, amount, live_until_ledger: live_until })]))
    }
}

/// `transfer_from`, the same on every fixture.
pub open spec fn spec_transfer_from(s: TokenState, authorized: bool, spender: u64, from: u64, to: u64, amount: i128) -> (TokenState, Outcome) {
    let (allowed, live_until) = live_allowance(s, from, spender);
    if !authorized {
        (s, Err(Trap::Unauthorized))
    } else if amount < 0 {
        (s, Err(Trap::InvalidAmount))
    } else if allowed < amount {
        (s, Err(Trap::InsufficientAllowance))
    } else if held(s, from) < amount {
        (s, Err(Trap::InsufficientBalance))
    } else {
        let t = moved(s, from, to, amount, amount);
        (TokenState { grants: t.grants.insert((from, spender), ((allowed - amount) as i128, live_until)), ..t },
            Ok(seq![FixtureEvent::Transfer(TransferEvent { from, to, amount })]))
    }
}

/// `burn`, the same on every fixture.
pub open spec fn spec_burn(s: TokenState, authorized: bool, from: u64, amount: i128) -> (TokenState, Outcome) {
    if !authorized {
        (s, Err(Trap::Unauthorized))
    } else if amount < 0 {
        (s, Err(Trap::InvalidAmount))
    } else if held(s, from) < amount {
        (s, Err(Trap::InsufficientBalance))
    } else {
        (TokenState { balances: s.balances.insert(from, (held(s, from) - amount) as i128), ..s },
            Ok(seq![FixtureEvent::Burn(BurnEvent { from, amount })]))
    }
}

/// `burn_from`, the same on every fixture.
pub open spec fn spec_burn_from(s: TokenState, authorized: bool, spender: u64, from: u64, amount: i128) -> (TokenState, Outcome) {
    let (allowed, live_until) = live_allowance(s, from, spender);
    if !authorized {
        (s, Err(Trap::Unauthorized))
    } else if amount < 0 {
        (s, Err(Trap::InvalidAmount))
    } else if allowed < amount {
        (s, Err(Trap::InsufficientAllowance))
    } else if held(s, from) < amount {
        (s, Err(Trap::InsufficientBalance))
    } else {
        (TokenState {
            balances: s.balances.insert(from, (held(s, from) - amount) as i128),
            grants: s.grants.insert((from, spender), ((allowed - amount) as i128, live_until)),
            ..s
        }, Ok(seq![FixtureEvent::Burn(BurnEvent { from, amount })]))
    }
}

/// Every fixture after the conforming one is wrong in exactly one way: its `transfer`
/// does what the conforming fixture's does except where its defect says otherwise.
/// Skipping authorization proceeds as an authorized transfer would; omitting the event
/// publishes nothing; losing a unit credits the recipient one unit less; emitting twice
/// publishes the conforming event twice; misstating the amount states one unit more;
/// permitting an overdraft succeeds only where the conforming fixture refuses a short
/// balance; omitting `decimals` changes nothing about `transfer`.
pub proof fn law_each_fixture_is_wrong_in_exactly_one_way(
    defect: Defect,
    s: TokenState,
    authorized: bool,
    from: u64,
    to: u64,
    amount: i128,
)
    requires
        transfer_fits(Defect::Conforming, s, from, to, amount),
        transfer_fits(defect, s, from, to, amount),
    ensures
        ({
            let c = spec_transfer(Defect::Conforming, s, authorized, from, to, amount);
            let d = spec_transfer(defect, s, authorized, from, to, amount);
            match defect {
                Defect::Conforming | Defect::MissingDecimals => d == c,
                Defect::SkipsAuthorization => d == spec_transfer(Defect::Conforming, s, true, from, to, amount)
                    && (authorized ==> d == c),
                Defect::OmitsEvent => d.0 == c.0 && match c.1 {
                    Ok(_) => d.1 == Ok::<Seq<FixtureEvent>, Trap>(seq![]),
                    Err(_) => d.1 == c.1,
                },
                Defect::WrongCreditAmount => d.1 == c.1 && (c.1 is Ok && from != to && amount > 0 ==> {
                    &&& held(d.0, to) == held(c.0, to) - 1
                    &&& held(d.0, from) == held(c.0, from)
                    &&& forall|other: u64| other != to ==> held(d.0, other) == held(c.0, other)
                }) && (amount == 0 || c.1 is Err ==> d.0 == c.0),
                Defect::DoubleEmits => d.0 == c.0 && match c.1 {
                    Ok(events) => d.1 == Ok::<Seq<FixtureEvent>, Trap>(events + events),
                    Err(_) => d.1 == c.1,
                },
                Defect::WrongEventAmount => d.0 == c.0 && match c.1 {
                    Ok(_) => d.1 == Ok::<Seq<FixtureEvent>, Trap>(seq![FixtureEvent::Transfer(TransferEvent { from, to, amount: (amount + 1) as i128 })]),
                    Err(_) => d.1 == c.1,
                },
                Defect::AllowsOverdraft => if c.1 == Err::<Seq<FixtureEvent>, Trap>(Trap::InsufficientBalance) {
                    d.1 is Ok && d.0 == moved(s, from, to, amount, amount)
                } else {
                    d == c
                },
            }
        }),
{
    let c = spec_transfer(Defect::Conforming, s, authorized, from, to, amount);
    let d = spec_transfer(defect, s, authorized, from, to, amount);
    if defect is WrongCreditAmount && c.1 is Ok && from != to && amount > 0 {
        let debited = TokenState { balances: s.balances.insert(from, (held(s, from) - amount) as i128), ..s };
        assert(held(debited, to) == held(s, to));
    }
    if defect is DoubleEmits && c.1 is Ok {
        let event = FixtureEvent::Transfer(TransferEvent { from, to, amount });
        assert(seq![event] + seq![event] =~= seq![event, event]);
    }
}

/// An approval is what the spender may draw until it expires: after an authorized
/// approval, which every fixture makes alike, of `amount` live until ledger
/// `live_until` (not before the current ledger), the grant stored is exactly that
/// amount and that ledger, so at any `later` ledger up to and including `live_until` the
/// spender's allowance reads `amount` and after it reads zero; no other grant, no
/// balance and not the ledger sequence changes.
pub proof fn law_an_approval_lasts_until_its_last_live_ledger(
    s: TokenState,
    from: u64,
    spender: u64,
    amount: i128,
    live_until: u32,
    later: u32,
    other_from: u64,
    other_spender: u64,
)
    requires
        amount >= 0,
        live_until >= s.sequence,
    ensures
        spec_approve(s, true, from, spender, amount, live_until).1 is Ok,
        spec_approve(s, true, from, spender, amount, live_until).0.grants.contains_key((from, spender)),
        spec_approve(s, true, from, spender, amount, live_until).0.grants[(from, spender)] == (amount, live_until),
        later <= live_until ==> live_allowance(
            (TokenState { sequence: later, ..spec_approve(s, true, from, spender, amount, live_until).0 }), from, spender,
        ).0 == amount,
        later > live_until ==> live_allowance(
            (TokenState { sequence: later, ..spec_approve(s, true, from, spender, amount, live_until).0 }), from, spender,
        ).0 == 0,
        (other_from, other_spender) != (from, spender) ==> live_allowance(
            (TokenState { sequence: later, ..spec_approve(s, true, from, spender, amount, live_until).0 }), other_from, other_spender,
        ) == live_allowance((TokenState { sequence: later, ..s }), other_from, other_spender),
        spec_approve(s, true, from, spender, amount, live_until).0.balances == s.balances,
        spec_approve(s, true, from, spender, amount, live_until).0.sequence == s.sequence,
{
}

/// The conforming transfer moves exactly the amount: a transfer between two holders
/// keeps the sum of their balances, a transfer to oneself leaves the balance as it was,
/// no other balance or grant changes, and exactly one event states the movement.
pub proof fn law_the_conforming_transfer_conserves_value(s: TokenState, authorized: bool, from: u64, to: u64, amount: i128)
    requires
        transfer_fits(Defect::Conforming, s, from, to, amount),
        spec_transfer(Defect::Conforming, s, authorized, from, to, amount).1 is Ok,
    ensures
        ({
            let (t, outcome) = spec_transfer(Defect::Conforming, s, authorized, from, to, amount);
            &&& from != to ==> held(t, from) + held(t, to) == held(s, from) + held(s, to)
            &&& from != to ==> held(t, from) == held(s, from) - amount
            &&& from == to ==> held(t, from) == held(s, from)
            &&& forall|other: u64| other != from && other != to ==> held(t, other) == held(s, other)
            &&& t.grants == s.grants
            &&& outcome == Ok::<Seq<FixtureEvent>, Trap>(seq![FixtureEvent::Transfer(TransferEvent { from, to, amount })])
        }),
{
    let debited = TokenState { balances: s.balances.insert(from, (held(s, from) - amount) as i128), ..s };
    if from != to {
        assert(held(debited, to) == held(s, to));
    }
}

/// A refused call changes nothing, on every fixture and for every method: the storage
/// after a trap is the storage before it.
pub proof fn law_a_refused_call_changes_nothing(
    defect: Defect,
    s: TokenState,
    authorized: bool,
    holder: u64,
    spender: u64,
    recipient: u64,
    amount: i128,
    live_until: u32,
)
    ensures
        spec_transfer(defect, s, authorized, holder, recipient, amount).1 is Err
            ==> spec_transfer(defect, s, authorized, holder, recipient, amount).0 == s,
        spec_approve(s, authorized, holder, spender, amount, live_until).1 is Err
            ==> spec_approve(s, authorized, holder, spender, amount, live_until).0 == s,
        spec_transfer_from(s, authorized, spender, holder, recipient, amount).1 is Err
            ==> spec_transfer_from(s, authorized, spender, holder, recipient, amount).0 == s,
        spec_burn(s, authorized, holder, amount).1 is Err ==> spec_burn(s, authorized, holder, amount).0 == s,
        spec_burn_from(s, authorized, spender, holder, amount).1 is Err
            ==> spec_burn_from(s, authorized, spender, holder, amount).0 == s,
{
}

/// A fixture token: the contract that is wrong in the way its defect names.
pub struct FixtureToken {
    defect: Defect,
    storage: TokenStorage,
}

impl View for FixtureToken {
    type V = TokenState;

    closed spec fn view(&self) -> TokenState {
        self.storage@
    }
}

impl FixtureToken {
    /// Which way this fixture is wrong.
    pub closed spec fn spec_defect(&self) -> Defect {
        self.defect
    }

    /// The fixture for `defect`, deployed with no balances and no grants at ledger
    /// `sequence`.
    pub fn deploy(defect: Defect, sequence: u32) -> (res: Self)
        ensures
            res.spec_defect() == defect,
            res@.balances == Map::<u64, i128>::empty(),
            res@.grants == Map::<(u64, u64), (i128, u32)>::empty(),
            res@.sequence == sequence,
    {
        FixtureToken { defect, storage: TokenStorage::new(sequence) }
    }

    /// Which way this fixture is wrong.
    pub fn defect(&self) -> (res: Defect)
        ensures
            res == self.spec_defect(),
    {
        self.defect
    }

    /// Moves the host to ledger `sequence`.
    pub fn set_sequence(&mut self, sequence: u32)
        ensures
            final(self)@ == (TokenState { sequence, ..old(self)@ }),
            final(self).spec_defect() == old(self).spec_defect(),
    {
        self.storage.set_sequence(sequence);
    }

    /// The precision, from the fixtures that publish `decimals`; the one that omits it
    /// has no such method.
    pub fn decimals(&self) -> (res: Option<u32>)
        ensures
            res == (if self.spec_defect().spec_exposes_decimals() { Some(FIXTURE_DECIMALS) } else { None::<u32> }),
    {
        if self.defect.exposes_decimals() { Some(FIXTURE_DECIMALS) } else { None }
    }

    /// The token's name.
    pub fn name(&self) -> (res: &'static str)
        ensures
            res@ == FIXTURE_NAME@,
    {
        FIXTURE_NAME
    }

    /// The token's symbol.
    pub fn symbol(&self) -> (res: &'static str)
        ensures
            res@ == FIXTURE_SYMBOL@,
    {
        FIXTURE_SYMBOL
    }

    /// The balance held by `who`, zero when none is recorded.
    pub fn balance(&self, who: u64) -> (res: i128)
        ensures
            res == held(self@, who),
    {
        self.storage.balance(who)
    }

    /// The amount `spender` may still draw from `from`.
    pub fn allowance(&self, from: u64, spender: u64) -> (res: i128)
        ensures
            res == live_allowance(self@, from, spender).0,
    {
        self.storage.live_allowance_at(from, spender).0
    }

    /// Debits `from` by `debit`, then credits `to` by `credit`.
    fn move_value(&mut self, from: u64, to: u64, debit: i128, credit: i128)
        requires
            movement_fits(old(self)@, from, to, debit, credit),
        ensures
            final(self)@ == moved(old(self)@, from, to, debit, credit),
            final(self).spec_defect() == old(self).spec_defect(),
    {
        let available = self.storage.balance(from);
        self.storage.set_balance(from, available - debit);
        let receiving = self.storage.balance(to);
        self.storage.set_balance(to, receiving + credit);
    }

    /// Moves `amount` from `from` to `to` the way this fixture does.
    pub fn transfer(&mut self, authorized: bool, from: u64, to: u64, amount: i128) -> (res: Result<Vec<FixtureEvent>, Trap>)
        requires
            transfer_fits(old(self).spec_defect(), old(self)@, from, to, amount),
        ensures
            final(self).spec_defect() == old(self).spec_defect(),
            final(self)@ == spec_transfer(old(self).spec_defect(), old(self)@, authorized, from, to, amount).0,
            match (res, spec_transfer(old(self).spec_defect(), old(self)@, authorized, from, to, amount).1) {
                (Ok(events), Ok(expected)) => events@ == expected,
                (Err(trap), Err(expected)) => trap == expected,
                _ => false,
            },
    {
        let defect = self.defect;
        if !matches!(defect, Defect::SkipsAuthorization) && !authorized {
            return Err(Trap::Unauthorized);
        }
        if amount < 0 {
            return Err(Trap::InvalidAmount);
        }
        if !matches!(defect, Defect::AllowsOverdraft) && self.storage.balance(from) < amount {
            return Err(Trap::InsufficientBalance);
        }
        let credit = if matches!(defect, Defect::WrongCreditAmount) && amount > 0 { amount - 1 } else { amount };
        self.move_value(from, to, amount, credit);
        let event = FixtureEvent::Transfer(TransferEvent { from, to, amount });
        let events = match defect {
            Defect::OmitsEvent => Vec::new(),
            Defect::DoubleEmits => vec![event, event],
            Defect::WrongEventAmount => vec![FixtureEvent::Transfer(TransferEvent { from, to, amount: amount + 1 })],
            _ => vec![event],
        };
        proof { assert(events@ =~= transfer_events(defect, from, to, amount)); }
        Ok(events)
    }

    /// Sets `spender`'s allowance from `from`, refusing a negative amount and an expiry
    /// already in the past.
    pub fn approve(&mut self, authorized: bool, from: u64, spender: u64, amount: i128, live_until_ledger: u32) -> (res: Result<Vec<FixtureEvent>, Trap>)
        ensures
            final(self).spec_defect() == old(self).spec_defect(),
            final(self)@ == spec_approve(old(self)@, authorized, from, spender, amount, live_until_ledger).0,
            match (res, spec_approve(old(self)@, authorized, from, spender, amount, live_until_ledger).1) {
                (Ok(events), Ok(expected)) => events@ == expected,
                (Err(trap), Err(expected)) => trap == expected,
                _ => false,
            },
    {
        if !authorized {
            return Err(Trap::Unauthorized);
        }
        if amount < 0 {
            return Err(Trap::InvalidAmount);
        }
        if live_until_ledger < self.storage.sequence() {
            return Err(Trap::InvalidLiveUntil);
        }
        self.storage.set_grant(from, spender, amount, live_until_ledger);
        let events = vec![FixtureEvent::Approve(ApproveEvent { from, spender, amount, live_until_ledger })];
        proof { assert(events@ =~= seq![FixtureEvent::Approve(ApproveEvent { from, spender, amount, live_until_ledger })]); }
        Ok(events)
    }

    /// Moves `amount` from `from` to `to`, consuming `spender`'s allowance; the
    /// remaining grant keeps its expiry.
    pub fn transfer_from(&mut self, authorized: bool, spender: u64, from: u64, to: u64, amount: i128) -> (res: Result<Vec<FixtureEvent>, Trap>)
        requires
            amount >= 0 ==> movement_fits(old(self)@, from, to, amount, amount),
        ensures
            final(self).spec_defect() == old(self).spec_defect(),
            final(self)@ == spec_transfer_from(old(self)@, authorized, spender, from, to, amount).0,
            match (res, spec_transfer_from(old(self)@, authorized, spender, from, to, amount).1) {
                (Ok(events), Ok(expected)) => events@ == expected,
                (Err(trap), Err(expected)) => trap == expected,
                _ => false,
            },
    {
        if !authorized {
            return Err(Trap::Unauthorized);
        }
        if amount < 0 {
            return Err(Trap::InvalidAmount);
        }
        let (allowed, live_until) = self.storage.live_allowance_at(from, spender);
        if allowed < amount {
            return Err(Trap::InsufficientAllowance);
        }
        if self.storage.balance(from) < amount {
            return Err(Trap::InsufficientBalance);
        }
        self.move_value(from, to, amount, amount);
        self.storage.set_grant(from, spender, allowed - amount, live_until);
        let events = vec![FixtureEvent::Transfer(TransferEvent { from, to, amount })];
        proof { assert(events@ =~= seq![FixtureEvent::Transfer(TransferEvent { from, to, amount })]); }
        Ok(events)
    }

    /// Removes `amount` from `from`'s balance.
    pub fn burn(&mut self, authorized: bool, from: u64, amount: i128) -> (res: Result<Vec<FixtureEvent>, Trap>)
        ensures
            final(self).spec_defect() == old(self).spec_defect(),
            final(self)@ == spec_burn(old(self)@, authorized, from, amount).0,
            match (res, spec_burn(old(self)@, authorized, from, amount).1) {
                (Ok(events), Ok(expected)) => events@ == expected,
                (Err(trap), Err(expected)) => trap == expected,
                _ => false,
            },
    {
        if !authorized {
            return Err(Trap::Unauthorized);
        }
        if amount < 0 {
            return Err(Trap::InvalidAmount);
        }
        let available = self.storage.balance(from);
        if available < amount {
            return Err(Trap::InsufficientBalance);
        }
        self.storage.set_balance(from, available - amount);
        let events = vec![FixtureEvent::Burn(BurnEvent { from, amount })];
        proof { assert(events@ =~= seq![FixtureEvent::Burn(BurnEvent { from, amount })]); }
        Ok(events)
    }

    /// Removes `amount` from `from`'s balance, consuming `spender`'s allowance.
    pub fn burn_from(&mut self, authorized: bool, spender: u64, from: u64, amount: i128) -> (res: Result<Vec<FixtureEvent>, Trap>)
        ensures
            final(self).spec_defect() == old(self).spec_defect(),
            final(self)@ == spec_burn_from(old(self)@, authorized, spender, from, amount).0,
            match (res, spec_burn_from(old(self)@, authorized, spender, from, amount).1) {
                (Ok(events), Ok(expected)) => events@ == expected,
                (Err(trap), Err(expected)) => trap == expected,
                _ => false,
            },
    {
        if !authorized {
            return Err(Trap::Unauthorized);
        }
        if amount < 0 {
            return Err(Trap::InvalidAmount);
        }
        let (allowed, live_until) = self.storage.live_allowance_at(from, spender);
        if allowed < amount {
            return Err(Trap::InsufficientAllowance);
        }
        let available = self.storage.balance(from);
        if available < amount {
            return Err(Trap::InsufficientBalance);
        }
        self.storage.set_balance(from, available - amount);
        self.storage.set_grant(from, spender, allowed - amount, live_until);
        let events = vec![FixtureEvent::Burn(BurnEvent { from, amount })];
        proof { assert(events@ =~= seq![FixtureEvent::Burn(BurnEvent { from, amount })]); }
        Ok(events)
    }

    /// Credits `who` without requiring authorization: the setup entry point a vector's
    /// opening balances come from.
    pub fn fixture_mint(&mut self, who: u64, amount: i128)
        requires
            i128::MIN <= held(old(self)@, who) + amount <= i128::MAX,
        ensures
            final(self).spec_defect() == old(self).spec_defect(),
            final(self)@ == (TokenState { balances: old(self)@.balances.insert(who, (held(old(self)@, who) + amount) as i128), ..old(self)@ }),
    {
        let current = self.storage.balance(who);
        self.storage.set_balance(who, current + amount);
    }

    /// Grants `spender` an allowance over `from`'s balance until a ledger, without any
    /// check: the setup entry point a lapsed grant comes from.
    pub fn fixture_approve(&mut self, from: u64, spender: u64, amount: i128, live_until_ledger: u32)
        ensures
            final(self).spec_defect() == old(self).spec_defect(),
            final(self)@ == (TokenState { grants: old(self)@.grants.insert((from, spender), (amount, live_until_ledger)), ..old(self)@ }),
    {
        self.storage.set_grant(from, spender, amount, live_until_ledger);
    }
}

} // verus!

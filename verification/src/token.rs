//! The measurable token: a SEP-0041 token with no mint, whose balances and allowances
//! start empty, measured as a compiled artifact.
//!
//! The token is modelled here as the state its storage holds: one balance per holder,
//! one grant per holder and spender with the ledger it is live until, and the ledger
//! sequence the host is at. Holders are named by integers. Whether the host accepted
//! the authorization an entry point demands is decided outside the token and is handed
//! to each entry point; a refusal of any kind is a trap, so it leaves the storage as it
//! found it.
use vstd::prelude::*;

use vstd::hash_map::HashMapWithView;

verus! {

broadcast use {
    vstd::std_specs::hash::axiom_u64_obeys_hash_table_key_model,
    vstd::std_specs::hash::axiom_u128_obeys_hash_table_key_model,
};

/// The precision this token reports.
pub const DECIMALS: u32 = 7;

/// This token's name.
pub const TOKEN_NAME: &'static str = "Measurable Token";

/// This token's symbol.
pub const TOKEN_SYMBOL: &'static str = "MST";

/// What went wrong, in the terms SEP-0041 defines.
#[derive(Debug, Clone, Copy, PartialEq, Eq, Structural)]
pub enum Error {
    /// The transferor does not hold enough.
    InsufficientBalance,
    /// The allowance is smaller than the amount drawn against it.
    InsufficientAllowance,
    /// An amount was negative.
    InvalidAmount,
}

impl Error {
    /// The error code the contract publishes.
    pub open spec fn spec_code(self) -> u32 {
        match self {
            Error::InsufficientBalance => 1,
            Error::InsufficientAllowance => 2,
            Error::InvalidAmount => 3,
        }
    }

    /// The error code the contract publishes.
    pub fn code(self) -> (res: u32)
        ensures
            res == self.spec_code(),
    {
        match self {
            Error::InsufficientBalance => 1,
            Error::InsufficientAllowance => 2,
            Error::InvalidAmount => 3,
        }
    }
}

/// Why an entry point trapped.
#[derive(Debug, Clone, Copy, PartialEq, Eq, Structural)]
pub enum Refusal {
    /// The host refused the authorization the entry point demanded.
    Unauthorized,
    /// The contract refused, with one of its errors.
    Contract { error: Error },
}

/// How a scenario supplies the authorizations a call demands.
#[derive(Debug, Clone, Copy, PartialEq, Eq, Structural)]
pub enum AuthorizationMode {
    /// Nothing is supplied: a call that demands any authorization is refused by the
    /// host before the contract acts.
    Denied,
    /// Every authorization the call demands is granted.
    Granted,
}

impl AuthorizationMode {
    /// Whether the host accepts the authorizations a call demands under this mode.
    pub fn grants(self) -> (res: bool)
        ensures
            res == (self is Granted),
    {
        match self {
            AuthorizationMode::Granted => true,
            AuthorizationMode::Denied => false,
        }
    }
}

/// What the token's storage holds.
pub struct TokenState {
    /// Each holder's balance; a holder with no entry holds zero.
    pub balances: Map<u64, i128>,
    /// Each grant, by holder and spender: its amount and the last ledger it is live at.
    pub grants: Map<(u64, u64), (i128, u32)>,
    /// The ledger sequence the host is at.
    pub sequence: u32,
}

/// The balance held by `holder`: zero when there is no entry.
pub open spec fn held(s: TokenState, holder: u64) -> i128 {
    if s.balances.contains_key(holder) { s.balances[holder] } else { 0 }
}

/// The grant from `from` to `spender` that is live at the current ledger, and the
/// ledger it is live until: an expired grant reads as zero, and no grant as zero at
/// ledger zero.
pub open spec fn live_allowance(s: TokenState, from: u64, spender: u64) -> (i128, u32) {
    if s.grants.contains_key((from, spender)) {
        let (amount, live_until) = s.grants[(from, spender)];
        if live_until >= s.sequence { (amount, live_until) } else { (0, live_until) }
    } else {
        (0, 0)
    }
}

/// Whether the token acts on `amount`: zero is valid, a negative amount never is.
pub open spec fn valid_amount(amount: i128) -> bool {
    amount >= 0
}

/// `approve`: sets the grant, refusing a negative amount.
pub open spec fn spec_approve(s: TokenState, authorized: bool, from: u64, spender: u64, amount: i128, live_until: u32) -> (TokenState, Result<(), Refusal>) {
    if !authorized {
        (s, Err(Refusal::Unauthorized))
    } else if !valid_amount(amount) {
        (s, Err(Refusal::Contract { error: Error::InvalidAmount }))
    } else {
        (TokenState { grants: s.grants.insert((from, spender), (amount, live_until)), ..s }, Ok(()))
    }
}

/// Moving `amount` from `from` to `to`: both balances are read before either is
/// written, and the recipient's is written last.
pub open spec fn spec_move_value(s: TokenState, from: u64, to: u64, amount: i128) -> (TokenState, Result<(), Error>) {
    if !valid_amount(amount) {
        (s, Err(Error::InvalidAmount))
    } else if held(s, from) < amount {
        (s, Err(Error::InsufficientBalance))
    } else {
        let sender = held(s, from);
        let receiver = held(s, to);
        (TokenState {
            balances: s.balances.insert(from, (sender - amount) as i128).insert(to, (receiver + amount) as i128),
            ..s
        }, Ok(()))
    }
}

/// Whether moving `amount` into `to`'s balance stays within an `i128`, on the path
/// where the move happens.
pub open spec fn credit_fits(s: TokenState, from: u64, to: u64, amount: i128) -> bool {
    valid_amount(amount) && held(s, from) >= amount ==> held(s, to) + amount <= i128::MAX
}

/// `transfer`: moves value once the holder has authorized it.
pub open spec fn spec_transfer(s: TokenState, authorized: bool, from: u64, to: u64, amount: i128) -> (TokenState, Result<(), Refusal>) {
    if !authorized {
        (s, Err(Refusal::Unauthorized))
    } else {
        match spec_move_value(s, from, to, amount) {
            (t, Ok(())) => (t, Ok(())),
            (_, Err(error)) => (s, Err(Refusal::Contract { error })),
        }
    }
}

/// `transfer_from`: moves value drawn on the spender's live allowance, and lowers the
/// allowance by what was moved.
pub open spec fn spec_transfer_from(s: TokenState, authorized: bool, spender: u64, from: u64, to: u64, amount: i128) -> (TokenState, Result<(), Refusal>) {
    let (allowed, live_until) = live_allowance(s, from, spender);
    if !authorized {
        (s, Err(Refusal::Unauthorized))
    } else if allowed < amount {
        (s, Err(Refusal::Contract { error: Error::InsufficientAllowance }))
    } else {
        match spec_move_value(s, from, to, amount) {
            (t, Ok(())) => (TokenState { grants: t.grants.insert((from, spender), ((allowed - amount) as i128, live_until)), ..t }, Ok(())),
            (_, Err(error)) => (s, Err(Refusal::Contract { error })),
        }
    }
}

/// `burn`: destroys part of the holder's balance.
pub open spec fn spec_burn(s: TokenState, authorized: bool, from: u64, amount: i128) -> (TokenState, Result<(), Refusal>) {
    if !authorized {
        (s, Err(Refusal::Unauthorized))
    } else if !valid_amount(amount) {
        (s, Err(Refusal::Contract { error: Error::InvalidAmount }))
    } else if held(s, from) < amount {
        (s, Err(Refusal::Contract { error: Error::InsufficientBalance }))
    } else {
        (TokenState { balances: s.balances.insert(from, (held(s, from) - amount) as i128), ..s }, Ok(()))
    }
}

/// `burn_from`: destroys part of the holder's balance, drawn on the spender's live
/// allowance.
pub open spec fn spec_burn_from(s: TokenState, authorized: bool, spender: u64, from: u64, amount: i128) -> (TokenState, Result<(), Refusal>) {
    let (allowed, live_until) = live_allowance(s, from, spender);
    if !authorized {
        (s, Err(Refusal::Unauthorized))
    } else if !valid_amount(amount) {
        (s, Err(Refusal::Contract { error: Error::InvalidAmount }))
    } else if allowed < amount {
        (s, Err(Refusal::Contract { error: Error::InsufficientAllowance }))
    } else if held(s, from) < amount {
        (s, Err(Refusal::Contract { error: Error::InsufficientBalance }))
    } else {
        (TokenState {
            balances: s.balances.insert(from, (held(s, from) - amount) as i128),
            grants: s.grants.insert((from, spender), ((allowed - amount) as i128, live_until)),
            ..s
        }, Ok(()))
    }
}

/// A negative amount is refused by every entry point that takes one, and the refusal
/// leaves the storage exactly as it found it: a negative amount never moves value the
/// other way, never creates a balance and never widens a grant.
pub proof fn law_a_negative_amount_is_refused_everywhere(
    s: TokenState,
    authorized: bool,
    holder: u64,
    spender: u64,
    recipient: u64,
    amount: i128,
    live_until: u32,
)
    requires
        amount < 0,
    ensures
        spec_approve(s, authorized, holder, spender, amount, live_until).1 is Err,
        spec_approve(s, authorized, holder, spender, amount, live_until).0 == s,
        spec_transfer(s, authorized, holder, recipient, amount).1 is Err,
        spec_transfer(s, authorized, holder, recipient, amount).0 == s,
        spec_transfer_from(s, authorized, spender, holder, recipient, amount).1 is Err,
        spec_transfer_from(s, authorized, spender, holder, recipient, amount).0 == s,
        spec_burn(s, authorized, holder, amount).1 is Err,
        spec_burn(s, authorized, holder, amount).0 == s,
        spec_burn_from(s, authorized, spender, holder, amount).1 is Err,
        spec_burn_from(s, authorized, spender, holder, amount).0 == s,
{
}

/// A refused call changes nothing: whatever an entry point refuses, the storage after
/// it is the storage before it.
pub proof fn law_a_refusal_changes_nothing(
    s: TokenState,
    authorized: bool,
    holder: u64,
    spender: u64,
    recipient: u64,
    amount: i128,
    live_until: u32,
)
    ensures
        spec_approve(s, authorized, holder, spender, amount, live_until).1 is Err
            ==> spec_approve(s, authorized, holder, spender, amount, live_until).0 == s,
        spec_transfer(s, authorized, holder, recipient, amount).1 is Err
            ==> spec_transfer(s, authorized, holder, recipient, amount).0 == s,
        spec_transfer_from(s, authorized, spender, holder, recipient, amount).1 is Err
            ==> spec_transfer_from(s, authorized, spender, holder, recipient, amount).0 == s,
        spec_burn(s, authorized, holder, amount).1 is Err ==> spec_burn(s, authorized, holder, amount).0 == s,
        spec_burn_from(s, authorized, spender, holder, amount).1 is Err
            ==> spec_burn_from(s, authorized, spender, holder, amount).0 == s,
{
}

/// A transfer between two holders moves exactly the amount: the two balances keep
/// their sum, the sender's falls by the amount, and no other balance or grant changes.
pub proof fn law_transfer_conserves_value(s: TokenState, authorized: bool, from: u64, to: u64, amount: i128)
    requires
        from != to,
        credit_fits(s, from, to, amount),
        spec_transfer(s, authorized, from, to, amount).1 is Ok,
    ensures
        ({
            let t = spec_transfer(s, authorized, from, to, amount).0;
            &&& held(t, from) + held(t, to) == held(s, from) + held(s, to)
            &&& held(t, from) == held(s, from) - amount
            &&& forall|other: u64| other != from && other != to ==> held(t, other) == held(s, other)
            &&& t.grants == s.grants
            &&& t.sequence == s.sequence
        }),
{
}

/// A transfer drawn on an allowance moves exactly the amount between the two holders
/// and lowers the spender's live allowance by the same amount.
pub proof fn law_transfer_from_draws_down_the_allowance(
    s: TokenState,
    authorized: bool,
    spender: u64,
    from: u64,
    to: u64,
    amount: i128,
)
    requires
        from != to,
        credit_fits(s, from, to, amount),
        spec_transfer_from(s, authorized, spender, from, to, amount).1 is Ok,
    ensures
        ({
            let t = spec_transfer_from(s, authorized, spender, from, to, amount).0;
            &&& held(t, from) + held(t, to) == held(s, from) + held(s, to)
            &&& held(t, from) == held(s, from) - amount
            &&& live_allowance(t, from, spender).0 == live_allowance(s, from, spender).0 - amount
        }),
{
    let (allowed, live_until) = live_allowance(s, from, spender);
    if s.grants.contains_key((from, spender)) && s.grants[(from, spender)].1 < s.sequence {
        assert(allowed == 0);
    }
}

/// Approving zero revokes: afterwards the spender can draw nothing.
pub proof fn law_approving_zero_revokes(s: TokenState, from: u64, spender: u64, live_until: u32)
    ensures
        spec_approve(s, true, from, spender, 0, live_until).1 is Ok,
        live_allowance(spec_approve(s, true, from, spender, 0, live_until).0, from, spender).0 == 0,
{
}

/// A grant past its last live ledger reads as zero, whatever it was for; and a holder
/// with no balance entry holds zero.
pub proof fn law_expired_and_absent_entries_read_zero(s: TokenState, from: u64, spender: u64, holder: u64)
    ensures
        s.grants.contains_key((from, spender)) && s.grants[(from, spender)].1 < s.sequence
            ==> live_allowance(s, from, spender).0 == 0,
        !s.grants.contains_key((from, spender)) ==> live_allowance(s, from, spender).0 == 0,
        !s.balances.contains_key(holder) ==> held(s, holder) == 0,
{
}

/// An approval is what the spender may draw until it expires: after an authorized
/// approval of `amount` live until ledger `live_until`, the grant stored is exactly that
/// amount and that ledger, so at any `later` ledger up to and including `live_until` the
/// spender's allowance reads `amount` and after it reads zero; no other grant, no
/// balance and not the ledger sequence changes.
pub proof fn law_an_approval_lasts_until_its_last_live_ledger(
    s: TokenState,
    from: u64,
    spender: u64,
    amount: i128,
    live_until: u32,
    later: u32,
    other_from: u64,
    other_spender: u64,
)
    requires
        amount >= 0,
    ensures
        spec_approve(s, true, from, spender, amount, live_until).1 is Ok,
        spec_approve(s, true, from, spender, amount, live_until).0.grants.contains_key((from, spender)),
        spec_approve(s, true, from, spender, amount, live_until).0.grants[(from, spender)] == (amount, live_until),
        later <= live_until ==> live_allowance(
            (TokenState { sequence: later, ..spec_approve(s, true, from, spender, amount, live_until).0 }), from, spender,
        ).0 == amount,
        later > live_until ==> live_allowance(
            (TokenState { sequence: later, ..spec_approve(s, true, from, spender, amount, live_until).0 }), from, spender,
        ).0 == 0,
        (other_from, other_spender) != (from, spender) ==> live_allowance(
            (TokenState { sequence: later, ..spec_approve(s, true, from, spender, amount, live_until).0 }), other_from, other_spender,
        ) == live_allowance((TokenState { sequence: later, ..s }), other_from, other_spender),
        spec_approve(s, true, from, spender, amount, live_until).0.balances == s.balances,
        spec_approve(s, true, from, spender, amount, live_until).0.sequence == s.sequence,
{
}

/// A burn destroys exactly the amount and nothing else: it succeeds exactly when the
/// holder authorized it, the amount is not negative and the holder holds at least that
/// much; then the holder's balance falls by the amount and no other balance, no grant
/// and not the ledger changes. A burn drawn on an allowance also needs a live allowance
/// of at least the amount, and lowers it by the amount.
pub proof fn law_a_burn_destroys_exactly_the_amount(
    s: TokenState,
    authorized: bool,
    spender: u64,
    from: u64,
    amount: i128,
    other: u64,
)
    ensures
        spec_burn(s, authorized, from, amount).1 is Ok <==> authorized && amount >= 0 && held(s, from) >= amount,
        spec_burn(s, authorized, from, amount).1 is Ok ==> held(spec_burn(s, authorized, from, amount).0, from)
            == held(s, from) - amount,
        spec_burn(s, authorized, from, amount).1 is Ok && other != from
            ==> held(spec_burn(s, authorized, from, amount).0, other) == held(s, other),
        spec_burn(s, authorized, from, amount).0.grants == s.grants,
        spec_burn(s, authorized, from, amount).0.sequence == s.sequence,
        spec_burn_from(s, authorized, spender, from, amount).1 is Ok
            <==> authorized && amount >= 0 && live_allowance(s, from, spender).0 >= amount && held(s, from) >= amount,
        spec_burn_from(s, authorized, spender, from, amount).1 is Ok ==> held(spec_burn_from(s, authorized, spender, from, amount).0, from)
            == held(s, from) - amount,
        spec_burn_from(s, authorized, spender, from, amount).1 is Ok && other != from
            ==> held(spec_burn_from(s, authorized, spender, from, amount).0, other) == held(s, other),
        spec_burn_from(s, authorized, spender, from, amount).1 is Ok
            ==> live_allowance(spec_burn_from(s, authorized, spender, from, amount).0, from, spender).0
                == live_allowance(s, from, spender).0 - amount,
{
    let (allowed, live_until) = live_allowance(s, from, spender);
    if s.grants.contains_key((from, spender)) && s.grants[(from, spender)].1 < s.sequence {
        assert(allowed == 0);
    }
}

/// The storage key of the grant from `from` to `spender`.
pub open spec fn grant_key(from: u64, spender: u64) -> u128 {
    (from as int * 0x1_0000_0000_0000_0000 + spender as int) as u128
}

/// Two grants share a storage key only when they are the same grant.
proof fn lemma_grant_key_injective(a: u64, b: u64, c: u64, d: u64)
    ensures
        grant_key(a, b) == grant_key(c, d) ==> a == c && b == d,
{
    assert(0 <= a as int * 0x1_0000_0000_0000_0000 + b as int <= u128::MAX) by (nonlinear_arith);
    assert(0 <= c as int * 0x1_0000_0000_0000_0000 + d as int <= u128::MAX) by (nonlinear_arith);
    if a != c {
        assert(a as int * 0x1_0000_0000_0000_0000 + b as int != c as int * 0x1_0000_0000_0000_0000 + d as int)
            by (nonlinear_arith)
            requires
                a != c,
                0 <= b < 0x1_0000_0000_0000_0000,
                0 <= d < 0x1_0000_0000_0000_0000,
        ;
    }
}

fn grant_key_of(from: u64, spender: u64) -> (res: u128)
    ensures
        res == grant_key(from, spender),
{
    assert(0 <= from as int * 0x1_0000_0000_0000_0000 + spender as int <= u128::MAX) by (nonlinear_arith);
    (from as u128) * 0x1_0000_0000_0000_0000u128 + (spender as u128)
}

/// A token's storage: balances by holder, grants by holder and spender, and the ledger
/// sequence the host is at.
pub struct TokenStorage {
    balances: HashMapWithView<u64, i128>,
    grants: HashMapWithView<u128, (i128, u32)>,
    sequence: u32,
}

impl View for TokenStorage {
    type V = TokenState;

    closed spec fn view(&self) -> TokenState {
        TokenState {
            balances: self.balances@,
            grants: Map::new(
                |p: (u64, u64)| self.grants@.contains_key(grant_key(p.0, p.1)),
                |p: (u64, u64)| self.grants@[grant_key(p.0, p.1)],
            ),
            sequence: self.sequence,
        }
    }
}

impl TokenStorage {
    /// Storage with no balances and no grants, at ledger `sequence`.
    pub fn new(sequence: u32) -> (res: Self)
        ensures
            res@.balances == Map::<u64, i128>::empty(),
            res@.grants == Map::<(u64, u64), (i128, u32)>::empty(),
            res@.sequence == sequence,
    {
        let res = TokenStorage { balances: HashMapWithView::new(), grants: HashMapWithView::new(), sequence };
        proof { assert(res@.grants =~= Map::<(u64, u64), (i128, u32)>::empty()); }
        res
    }

    /// Moves the host to ledger `sequence`.
    pub fn set_sequence(&mut self, sequence: u32)
        ensures
            final(self)@ == (TokenState { sequence, ..old(self)@ }),
    {
        self.sequence = sequence;
        proof { assert(final(self)@.grants =~= old(self)@.grants); }
    }

    /// The ledger sequence the host is at.
    pub fn sequence(&self) -> (res: u32)
        ensures
            res == self@.sequence,
    {
        self.sequence
    }

    /// The balance held by `id`, zero for a holder with no balance entry.
    pub fn balance(&self, id: u64) -> (res: i128)
        ensures
            res == held(self@, id),
    {
        match self.balances.get(&id) {
            Some(amount) => *amount,
            None => 0,
        }
    }

    /// The grant from `from` to `spender`, where there is one.
    pub fn grant(&self, from: u64, spender: u64) -> (res: Option<(i128, u32)>)
        ensures
            match res {
                Some(g) => self@.grants.contains_key((from, spender)) && g == self@.grants[(from, spender)],
                None => !self@.grants.contains_key((from, spender)),
            },
    {
        let key = grant_key_of(from, spender);
        match self.grants.get(&key) {
            Some(g) => Some(*g),
            None => None,
        }
    }

    /// The live grant and the ledger it is live until.
    pub fn live_allowance_at(&self, from: u64, spender: u64) -> (res: (i128, u32))
        ensures
            res == live_allowance(self@, from, spender),
    {
        match self.grant(from, spender) {
            Some((amount, live_until)) => {
                if live_until >= self.sequence { (amount, live_until) } else { (0, live_until) }
            },
            None => (0, 0),
        }
    }

    /// Writes the grant from `from` to `spender`.
    pub fn set_grant(&mut self, from: u64, spender: u64, amount: i128, live_until: u32)
        ensures
            final(self)@ == (TokenState { grants: old(self)@.grants.insert((from, spender), (amount, live_until)), ..old(self)@ }),
    {
        let key = grant_key_of(from, spender);
        self.grants.insert(key, (amount, live_until));
        proof {
            let expected = old(self)@.grants.insert((from, spender), (amount, live_until));
            assert forall|p: (u64, u64)| #[trigger] final(self)@.grants.contains_key(p) == expected.contains_key(p) by {
                lemma_grant_key_injective(p.0, p.1, from, spender);
            }
            assert forall|p: (u64, u64)| final(self)@.grants.contains_key(p) implies #[trigger] final(self)@.grants[p] == expected[p] by {
                lemma_grant_key_injective(p.0, p.1, from, spender);
            }
            assert(final(self)@.grants =~= expected);
        }
    }

    /// Writes `holder`'s balance.
    pub fn set_balance(&mut self, holder: u64, amount: i128)
        ensures
            final(self)@ == (TokenState { balances: old(self)@.balances.insert(holder, amount), ..old(self)@ }),
    {
        self.balances.insert(holder, amount);
        proof { assert(final(self)@.grants =~= old(self)@.grants); }
    }
}

/// The measurable token.
pub struct MeasurableToken {
    storage: TokenStorage,
}

impl View for MeasurableToken {
    type V = TokenState;

    closed spec fn view(&self) -> TokenState {
        self.storage@
    }
}

impl MeasurableToken {
    /// A token with no balances and no grants, at ledger `sequence`.
    pub fn new(sequence: u32) -> (res: Self)
        ensures
            res@.balances == Map::<u64, i128>::empty(),
            res@.grants == Map::<(u64, u64), (i128, u32)>::empty(),
            res@.sequence == sequence,
    {
        MeasurableToken { storage: TokenStorage::new(sequence) }
    }

    /// Moves the host to ledger `sequence`.
    pub fn set_sequence(&mut self, sequence: u32)
        ensures
            final(self)@ == (TokenState { sequence, ..old(self)@ }),
    {
        self.storage.set_sequence(sequence);
    }

    /// The precision this token reports.
    pub fn decimals(&self) -> (res: u32)
        ensures
            res == DECIMALS,
    {
        DECIMALS
    }

    /// This token's name.
    pub fn name(&self) -> (res: &'static str)
        ensures
            res@ == TOKEN_NAME@,
    {
        TOKEN_NAME
    }

    /// This token's symbol.
    pub fn symbol(&self) -> (res: &'static str)
        ensures
            res@ == TOKEN_SYMBOL@,
    {
        TOKEN_SYMBOL
    }

    /// The balance held by `id`, zero for a holder with no balance entry.
    pub fn balance(&self, id: u64) -> (res: i128)
        ensures
            res == held(self@, id),
    {
        self.storage.balance(id)
    }

    /// The remaining allowance from `from` to `spender`, zero when there is none or it
    /// has expired.
    pub fn allowance(&self, from: u64, spender: u64) -> (res: i128)
        ensures
            res == live_allowance(self@, from, spender).0,
    {
        self.storage.live_allowance_at(from, spender).0
    }

    /// Moves value between two balances, reading both before writing either.
    fn move_value(&mut self, from: u64, to: u64, amount: i128) -> (res: Result<(), Error>)
        requires
            credit_fits(old(self)@, from, to, amount),
        ensures
            (final(self)@, res) == spec_move_value(old(self)@, from, to, amount),
    {
        if amount < 0 {
            return Err(Error::InvalidAmount);
        }
        let sender = self.storage.balance(from);
        if sender < amount {
            return Err(Error::InsufficientBalance);
        }
        let receiver = self.storage.balance(to);
        self.storage.set_balance(from, sender - amount);
        self.storage.set_balance(to, receiver + amount);
        Ok(())
    }

    /// Sets `spender`'s allowance from `from` to `amount`, live until `live_until`; a
    /// negative amount is refused, and zero revokes.
    pub fn approve(&mut self, authorized: bool, from: u64, spender: u64, amount: i128, live_until: u32) -> (res: Result<(), Refusal>)
        ensures
            (final(self)@, res) == spec_approve(old(self)@, authorized, from, spender, amount, live_until),
    {
        if !authorized {
            return Err(Refusal::Unauthorized);
        }
        if amount < 0 {
            return Err(Refusal::Contract { error: Error::InvalidAmount });
        }
        self.storage.set_grant(from, spender, amount, live_until);
        Ok(())
    }

    /// Moves `amount` from `from` to `to`.
    pub fn transfer(&mut self, authorized: bool, from: u64, to: u64, amount: i128) -> (res: Result<(), Refusal>)
        requires
            credit_fits(old(self)@, from, to, amount),
        ensures
            (final(self)@, res) == spec_transfer(old(self)@, authorized, from, to, amount),
    {
        if !authorized {
            return Err(Refusal::Unauthorized);
        }
        match self.move_value(from, to, amount) {
            Ok(()) => Ok(()),
            Err(error) => Err(Refusal::Contract { error }),
        }
    }

    /// Moves `amount` from `from` to `to`, drawing on `spender`'s live allowance.
    pub fn transfer_from(&mut self, authorized: bool, spender: u64, from: u64, to: u64, amount: i128) -> (res: Result<(), Refusal>)
        requires
            credit_fits(old(self)@, from, to, amount),
        ensures
            (final(self)@, res) == spec_transfer_from(old(self)@, authorized, spender, from, to, amount),
    {
        if !authorized {
            return Err(Refusal::Unauthorized);
        }
        let (allowed, live_until) = self.storage.live_allowance_at(from, spender);
        if allowed < amount {
            return Err(Refusal::Contract { error: Error::InsufficientAllowance });
        }
        match self.move_value(from, to, amount) {
            Ok(()) => {
                self.storage.set_grant(from, spender, allowed - amount, live_until);
                Ok(())
            },
            Err(error) => Err(Refusal::Contract { error }),
        }
    }

    /// Destroys `amount` of `from`'s balance.
    pub fn burn(&mut self, authorized: bool, from: u64, amount: i128) -> (res: Result<(), Refusal>)
        ensures
            (final(self)@, res) == spec_burn(old(self)@, authorized, from, amount),
    {
        if !authorized {
            return Err(Refusal::Unauthorized);
        }
        if amount < 0 {
            return Err(Refusal::Contract { error: Error::InvalidAmount });
        }
        let held_now = self.storage.balance(from);
        if held_now < amount {
            return Err(Refusal::Contract { error: Error::InsufficientBalance });
        }
        self.storage.set_balance(from, held_now - amount);
        Ok(())
    }

    /// Destroys `amount` of `from`'s balance, drawing on `spender`'s live allowance.
    pub fn burn_from(&mut self, authorized: bool, spender: u64, from: u64, amount: i128) -> (res: Result<(), Refusal>)
        ensures
            (final(self)@, res) == spec_burn_from(old(self)@, authorized, spender, from, amount),
    {
        if !authorized {
            return Err(Refusal::Unauthorized);
        }
        if amount < 0 {
            return Err(Refusal::Contract { error: Error::InvalidAmount });
        }
        let (allowed, live_until) = self.storage.live_allowance_at(from, spender);
        if allowed < amount {
            return Err(Refusal::Contract { error: Error::InsufficientAllowance });
        }
        let held_now = self.storage.balance(from);
        if held_now < amount {
            return Err(Refusal::Contract { error: Error::InsufficientBalance });
        }
        self.storage.set_balance(from, held_now - amount);
        self.storage.set_grant(from, spender, allowed - amount, live_until);
        Ok(())
    }
}

} // verus!

//! Measurable-token tests: the token starts empty, a refusal is a trap carrying the
//! error, and a refused call changes nothing.

use estamora::token::{DECIMALS, Error, MeasurableToken, Refusal, TOKEN_NAME, TOKEN_SYMBOL};

const HOLDER: u64 = 1;
const SPENDER: u64 = 2;
const RECIPIENT: u64 = 3;

fn refused(error: Error) -> Result<(), Refusal> {
    Err(Refusal::Contract { error })
}

#[test]
fn an_address_with_no_balance_entry_reads_zero() {
    let token = MeasurableToken::new(1_000);
    assert_eq!(token.balance(HOLDER), 0);
}

#[test]
fn the_metadata_is_stable() {
    let token = MeasurableToken::new(1_000);
    assert_eq!(token.decimals(), DECIMALS);
    assert_eq!(token.decimals(), 7);
    assert_eq!(token.name(), TOKEN_NAME);
    assert_eq!(token.name(), "Measurable Token");
    assert_eq!(token.symbol(), TOKEN_SYMBOL);
    assert_eq!(token.symbol(), "MST");
}

#[test]
fn a_refusal_is_a_trap_carrying_the_error_not_a_returned_value() {
    let mut token = MeasurableToken::new(1_000);
    assert_eq!(token.burn(true, HOLDER, 1), refused(Error::InsufficientBalance));
    assert_eq!(token.approve(true, HOLDER, HOLDER, -1, 10), refused(Error::InvalidAmount));
    assert_eq!(Error::InsufficientBalance.code(), 1);
    assert_eq!(Error::InsufficientAllowance.code(), 2);
    assert_eq!(Error::InvalidAmount.code(), 3);
}

#[test]
fn an_expired_allowance_reads_zero() {
    let mut token = MeasurableToken::new(1_000);
    token.approve(true, HOLDER, SPENDER, 500, 1_050).unwrap();
    assert_eq!(token.allowance(HOLDER, SPENDER), 500);

    token.set_sequence(1_051);
    assert_eq!(token.allowance(HOLDER, SPENDER), 0, "an allowance past its last live ledger must read as zero");
}

#[test]
fn a_negative_amount_is_refused_by_every_entry_point_and_changes_nothing() {
    let mut token = MeasurableToken::new(1_000);
    assert_eq!(token.burn(true, HOLDER, -1_000), refused(Error::InvalidAmount));
    assert_eq!(token.burn_from(true, SPENDER, HOLDER, -2_000), refused(Error::InvalidAmount));
    assert_eq!(token.transfer(true, HOLDER, RECIPIENT, -1), refused(Error::InvalidAmount));
    assert_eq!(token.transfer_from(true, SPENDER, HOLDER, RECIPIENT, -1), refused(Error::InvalidAmount));
    assert_eq!(token.approve(true, HOLDER, SPENDER, -1, 10), refused(Error::InvalidAmount));

    assert_eq!(token.balance(HOLDER), 0, "a refused burn must not create a balance");
    assert_eq!(token.balance(RECIPIENT), 0);
    assert_eq!(token.allowance(HOLDER, SPENDER), 0, "a refused burn_from must not grant the spender an allowance");
}

#[test]
fn a_zero_amount_is_accepted_so_an_allowance_can_be_revoked() {
    let mut token = MeasurableToken::new(1_000);
    token.approve(true, HOLDER, SPENDER, 500, 2_000).unwrap();
    assert_eq!(token.allowance(HOLDER, SPENDER), 500);

    token.approve(true, HOLDER, SPENDER, 0, 2_000).unwrap();
    assert_eq!(token.allowance(HOLDER, SPENDER), 0, "approving zero must revoke rather than refuse");

    token.burn(true, HOLDER, 0).unwrap();
    assert_eq!(token.balance(HOLDER), 0);
}

#[test]
fn an_unauthorized_call_is_refused_by_the_host_and_changes_nothing() {
    let mut token = MeasurableToken::new(1_000);
    assert_eq!(token.approve(false, HOLDER, SPENDER, 5, 2_000), Err(Refusal::Unauthorized));
    assert_eq!(token.allowance(HOLDER, SPENDER), 0);
    assert_eq!(token.burn(false, HOLDER, 0), Err(Refusal::Unauthorized));
    assert_eq!(token.transfer(false, HOLDER, RECIPIENT, 0), Err(Refusal::Unauthorized));
}

#[test]
fn drawing_on_an_allowance_needs_both_the_allowance_and_the_balance() {
    let mut token = MeasurableToken::new(1_000);
    assert_eq!(token.transfer_from(true, SPENDER, HOLDER, RECIPIENT, 1), refused(Error::InsufficientAllowance));
    token.approve(true, HOLDER, SPENDER, 10, 2_000).unwrap();
    assert_eq!(token.transfer_from(true, SPENDER, HOLDER, RECIPIENT, 5), refused(Error::InsufficientBalance));
    assert_eq!(token.burn_from(true, SPENDER, HOLDER, 5), refused(Error::InsufficientBalance));
    assert_eq!(token.allowance(HOLDER, SPENDER), 10, "a refused draw leaves the grant as it was");
    token.transfer_from(true, SPENDER, HOLDER, RECIPIENT, 0).unwrap();
    assert_eq!(token.allowance(HOLDER, SPENDER), 10);
    assert_eq!(token.balance(RECIPIENT), 0);
}

#[test]
fn a_zero_transfer_between_holders_moves_nothing() {
    let mut token = MeasurableToken::new(1_000);
    token.transfer(true, HOLDER, RECIPIENT, 0).unwrap();
    assert_eq!(token.balance(HOLDER) + token.balance(RECIPIENT), 0);
    assert_eq!(token.transfer(true, HOLDER, RECIPIENT, 1), refused(Error::InsufficientBalance));
}

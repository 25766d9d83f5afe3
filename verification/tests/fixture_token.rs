//! Fixture-token tests: each fixture differs from the conforming one only where its
//! defect says.

use estamora::fixture::Defect;
use estamora::fixture_token::{
    ApproveEvent, BurnEvent, FIXTURE_DECIMALS, FIXTURE_NAME, FIXTURE_SYMBOL, FixtureEvent, FixtureToken, Trap,
    TransferEvent,
};

const ALICE: u64 = 1;
const BOB: u64 = 2;
const CAROL: u64 = 3;

fn funded(defect: Defect) -> FixtureToken {
    let mut token = FixtureToken::deploy(defect, 1_000);
    token.fixture_mint(ALICE, 1_000);
    token
}

fn transfer_event(from: u64, to: u64, amount: i128) -> FixtureEvent {
    FixtureEvent::Transfer(TransferEvent { from, to, amount })
}

#[test]
fn the_metadata_a_vector_reads_is_not_empty() {
    assert!(!FIXTURE_NAME.is_empty());
    assert!(!FIXTURE_SYMBOL.is_empty());
    let token = FixtureToken::deploy(Defect::Conforming, 1);
    assert_eq!(token.name(), "Conformance Token");
    assert_eq!(token.symbol(), "CNF");
}

#[test]
fn only_the_fixture_without_decimals_lacks_the_method() {
    for defect in Defect::all() {
        let token = FixtureToken::deploy(defect, 1);
        let expected = if defect == Defect::MissingDecimals { None } else { Some(FIXTURE_DECIMALS) };
        assert_eq!(token.decimals(), expected, "{}", defect.as_str());
    }
}

#[test]
fn the_conforming_transfer_moves_exactly_the_amount_and_says_so_once() {
    let mut token = funded(Defect::Conforming);
    assert_eq!(token.transfer(true, ALICE, BOB, 250).unwrap(), vec![transfer_event(ALICE, BOB, 250)]);
    assert_eq!(token.balance(ALICE), 750);
    assert_eq!(token.balance(BOB), 250);
}

#[test]
fn a_transfer_to_oneself_leaves_the_balance_as_it_was() {
    let mut token = funded(Defect::Conforming);
    token.transfer(true, ALICE, ALICE, 400).unwrap();
    assert_eq!(token.balance(ALICE), 1_000);
}

#[test]
fn a_refused_transfer_publishes_nothing_and_moves_nothing() {
    let mut token = funded(Defect::Conforming);
    assert_eq!(token.transfer(false, ALICE, BOB, 10), Err(Trap::Unauthorized));
    assert_eq!(token.transfer(true, ALICE, BOB, 1_001), Err(Trap::InsufficientBalance));
    assert_eq!(token.transfer(true, ALICE, BOB, -1), Err(Trap::InvalidAmount));
    assert_eq!(token.balance(ALICE), 1_000);
    assert_eq!(token.balance(BOB), 0);
    assert_eq!(Trap::InsufficientBalance.message(), "insufficient balance");
}

#[test]
fn the_fixture_that_skips_authorization_moves_value_without_it() {
    let mut token = funded(Defect::SkipsAuthorization);
    assert_eq!(token.transfer(false, ALICE, BOB, 100).unwrap(), vec![transfer_event(ALICE, BOB, 100)]);
    assert_eq!(token.balance(BOB), 100);
}

#[test]
fn the_fixture_that_omits_the_event_moves_value_in_silence() {
    let mut token = funded(Defect::OmitsEvent);
    assert_eq!(token.transfer(true, ALICE, BOB, 100).unwrap(), vec![]);
    assert_eq!(token.balance(ALICE), 900);
    assert_eq!(token.balance(BOB), 100);
}

#[test]
fn the_fixture_that_loses_a_unit_credits_one_less_than_it_debits() {
    let mut token = funded(Defect::WrongCreditAmount);
    assert_eq!(token.transfer(true, ALICE, BOB, 100).unwrap(), vec![transfer_event(ALICE, BOB, 100)]);
    assert_eq!(token.balance(ALICE), 900);
    assert_eq!(token.balance(BOB), 99);
    token.transfer(true, ALICE, CAROL, 0).unwrap();
    assert_eq!(token.balance(CAROL), 0, "a transfer of zero credits zero");
}

#[test]
fn the_fixture_that_emits_twice_publishes_two_events_for_one_movement() {
    let mut token = funded(Defect::DoubleEmits);
    let event = transfer_event(ALICE, BOB, 100);
    assert_eq!(token.transfer(true, ALICE, BOB, 100).unwrap(), vec![event, event]);
    assert_eq!(token.balance(BOB), 100);
}

#[test]
fn the_fixture_that_misstates_the_amount_says_one_more_than_it_moved() {
    let mut token = funded(Defect::WrongEventAmount);
    assert_eq!(token.transfer(true, ALICE, BOB, 100).unwrap(), vec![transfer_event(ALICE, BOB, 101)]);
    assert_eq!(token.balance(BOB), 100);
}

#[test]
fn the_fixture_that_permits_an_overdraft_produces_a_negative_balance() {
    let mut token = funded(Defect::AllowsOverdraft);
    token.transfer(true, ALICE, BOB, 1_500).unwrap();
    assert_eq!(token.balance(ALICE), -500);
    assert_eq!(token.balance(BOB), 1_500);
    assert_eq!(token.transfer(false, ALICE, BOB, 1), Err(Trap::Unauthorized));
}

#[test]
fn the_shared_methods_behave_the_same_on_every_fixture() {
    for defect in Defect::all() {
        let mut token = funded(defect);
        assert_eq!(
            token.approve(true, ALICE, BOB, 300, 2_000).unwrap(),
            vec![FixtureEvent::Approve(ApproveEvent { from: ALICE, spender: BOB, amount: 300, live_until_ledger: 2_000 })]
        );
        assert_eq!(token.approve(true, ALICE, BOB, 1, 999), Err(Trap::InvalidLiveUntil));
        assert_eq!(token.transfer_from(true, BOB, ALICE, CAROL, 301), Err(Trap::InsufficientAllowance));
        token.transfer_from(true, BOB, ALICE, CAROL, 200).unwrap();
        assert_eq!(token.allowance(ALICE, BOB), 100);
        assert_eq!(token.balance(CAROL), 200);
        assert_eq!(
            token.burn_from(true, BOB, ALICE, 100).unwrap(),
            vec![FixtureEvent::Burn(BurnEvent { from: ALICE, amount: 100 })]
        );
        assert_eq!(token.allowance(ALICE, BOB), 0);
        assert_eq!(token.burn(true, ALICE, 701), Err(Trap::InsufficientBalance));
        token.burn(true, ALICE, 700).unwrap();
        assert_eq!(token.balance(ALICE), 0, "{}", defect.as_str());
    }
}

#[test]
fn a_lapsed_grant_set_up_by_a_fixture_reads_zero() {
    let mut token = funded(Defect::Conforming);
    token.fixture_approve(ALICE, BOB, 500, 999);
    assert_eq!(token.allowance(ALICE, BOB), 0);
    assert_eq!(token.transfer_from(true, BOB, ALICE, CAROL, 1), Err(Trap::InsufficientAllowance));
    token.set_sequence(900);
    assert_eq!(token.allowance(ALICE, BOB), 500);
}

#[test]
fn an_authorized_transfer_moves_exactly_the_requested_amount() {
    let mut token = funded(Defect::Conforming);
    assert!(token.transfer(true, ALICE, BOB, 250).is_ok());
    assert_eq!(token.balance(ALICE), 750);
    assert_eq!(token.balance(BOB), 250);
}

#[test]
fn a_transfer_without_authorization_is_refused_and_moves_nothing() {
    let mut token = funded(Defect::Conforming);
    assert_eq!(token.transfer(false, ALICE, BOB, 250), Err(Trap::Unauthorized));
    assert_eq!(token.balance(ALICE), 1_000);
    assert_eq!(token.balance(BOB), 0);
}

#[test]
fn a_contract_that_skips_its_authorization_check_is_caught() {
    let mut token = funded(Defect::SkipsAuthorization);
    assert!(token.transfer(false, ALICE, BOB, 250).is_ok());
    assert_eq!(token.balance(BOB), 250);
}

#[test]
fn a_transfer_beyond_the_balance_is_refused_and_moves_nothing() {
    let mut token = FixtureToken::deploy(Defect::Conforming, 1_000);
    token.fixture_mint(ALICE, 100);
    assert_eq!(token.transfer(true, ALICE, BOB, 250), Err(Trap::InsufficientBalance));
    assert_eq!(token.balance(ALICE), 100);
    assert_eq!(token.balance(BOB), 0);
}

#[test]
fn a_successful_transfer_emits_one_event_named_in_its_first_topic() {
    let mut token = funded(Defect::Conforming);
    let events = token.transfer(true, ALICE, BOB, 250).unwrap();
    assert_eq!(events.len(), 1);
    assert!(matches!(events[0], FixtureEvent::Transfer(TransferEvent { from: ALICE, to: BOB, amount: 250 })));
}

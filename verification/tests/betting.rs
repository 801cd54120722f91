use privymarket::commitment::compute_commitment;
use privymarket::errors::LedgerError;
use privymarket::errors::MarketError;
use privymarket::ledger::Ledger;
use privymarket::market::MarketStatus;

const ADMIN: u64 = 7;
const ALICE: u64 = 11;
const BOB: u64 = 12;

fn open_market() -> Ledger {
    let mut l = Ledger::new();
    assert_eq!(l.initialize(ADMIN), Ok(()));
    assert_eq!(l.create_market(ADMIN, 1, "q".to_string(), 100, 10), Ok(()));
    l
}

#[test]
fn place_bet_rejects_zero_amount() {
    let mut l = open_market();
    let c = compute_commitment(&[1u8; 32], true);
    assert_eq!(
        l.place_bet(1, ALICE, c, 0, 20),
        Err(LedgerError::Market(MarketError::InvalidAmount))
    );
    assert!(l.position(1, ALICE).is_none());
}

#[test]
fn place_bet_rejects_unknown_market() {
    let mut l = open_market();
    let c = compute_commitment(&[1u8; 32], true);
    assert_eq!(l.place_bet(9, ALICE, c, 50, 20), Err(LedgerError::NotFound));
}

#[test]
fn place_bet_rejects_resolved_market() {
    let mut l = open_market();
    assert_eq!(l.resolve_market(ADMIN, 1, true, 100), Ok(()));
    let c = compute_commitment(&[1u8; 32], true);
    assert_eq!(
        l.place_bet(1, ALICE, c, 50, 150),
        Err(LedgerError::Market(MarketError::MarketNotOpen))
    );
}

#[test]
fn place_bet_rejects_at_or_after_deadline() {
    let mut l = open_market();
    let c = compute_commitment(&[1u8; 32], true);
    // betting exactly at the deadline is already too late
    assert_eq!(
        l.place_bet(1, ALICE, c, 50, 100),
        Err(LedgerError::Market(MarketError::DeadlinePassed))
    );
    assert_eq!(
        l.place_bet(1, ALICE, c, 50, 101),
        Err(LedgerError::Market(MarketError::DeadlinePassed))
    );
    assert_eq!(l.place_bet(1, ALICE, c, 50, 99), Ok(()));
}

#[test]
fn place_bet_records_position_and_funds_vault() {
    let mut l = open_market();
    let c = compute_commitment(&[1u8; 32], true);
    assert_eq!(l.place_bet(1, ALICE, c, 50, 20), Ok(()));
    let p = l.position(1, ALICE).unwrap();
    assert_eq!(p.user, ALICE);
    assert_eq!(p.market, 1);
    assert_eq!(p.commitment, c);
    assert_eq!(p.amount, 50);
    assert!(!p.claimed);
    assert_eq!(p.created_at, 20);
    let m = l.market(1).unwrap();
    assert_eq!(m.total_pool, 50);
    // the side of the bet leaves no trace in the pools while betting is open
    assert_eq!(m.total_yes_pool, 0);
    assert_eq!(m.total_no_pool, 0);
    assert_eq!(m.status, MarketStatus::Open);
    assert_eq!(l.vault_balance(1), Some(50));
}

#[test]
fn place_bet_rejects_second_bet_by_same_bettor() {
    let mut l = open_market();
    let c = compute_commitment(&[1u8; 32], true);
    assert_eq!(l.place_bet(1, ALICE, c, 50, 20), Ok(()));
    let c2 = compute_commitment(&[2u8; 32], false);
    assert_eq!(l.place_bet(1, ALICE, c2, 30, 21), Err(LedgerError::AlreadyExists));
    // the first position is untouched: no silent top-up
    assert_eq!(l.position(1, ALICE).unwrap().amount, 50);
    assert_eq!(l.market(1).unwrap().total_pool, 50);
}

#[test]
fn total_pool_is_the_sum_of_all_stakes() {
    let mut l = open_market();
    let ca = compute_commitment(&[1u8; 32], true);
    let cb = compute_commitment(&[2u8; 32], false);
    assert_eq!(l.place_bet(1, ALICE, ca, 100, 20), Ok(()));
    assert_eq!(l.market(1).unwrap().total_pool, 100);
    assert_eq!(l.place_bet(1, BOB, cb, 200, 21), Ok(()));
    assert_eq!(l.market(1).unwrap().total_pool, 300);
    assert_eq!(l.vault_balance(1), Some(300));
}

#[test]
fn place_bet_overflow_aborts_with_no_effect() {
    let mut l = open_market();
    let ca = compute_commitment(&[1u8; 32], true);
    let cb = compute_commitment(&[2u8; 32], false);
    assert_eq!(l.place_bet(1, ALICE, ca, u64::MAX, 20), Ok(()));
    assert_eq!(l.place_bet(1, BOB, cb, 1, 21), Err(LedgerError::Overflow));
    assert!(l.position(1, BOB).is_none());
    assert_eq!(l.market(1).unwrap().total_pool, u64::MAX);
    assert_eq!(l.vault_balance(1), Some(u64::MAX));
}

#[test]
fn bets_on_different_markets_are_independent() {
    let mut l = open_market();
    assert_eq!(l.create_market(ADMIN, 2, "other".to_string(), 100, 10), Ok(()));
    let c = compute_commitment(&[1u8; 32], true);
    assert_eq!(l.place_bet(1, ALICE, c, 50, 20), Ok(()));
    assert_eq!(l.place_bet(2, ALICE, c, 70, 20), Ok(()));
    assert_eq!(l.market(1).unwrap().total_pool, 50);
    assert_eq!(l.market(2).unwrap().total_pool, 70);
    assert_eq!(l.vault_balance(1), Some(50));
    assert_eq!(l.vault_balance(2), Some(70));
}

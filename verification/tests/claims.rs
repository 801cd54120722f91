use privymarket::commitment::bytes32_eq;
use privymarket::commitment::compute_commitment;
use privymarket::errors::LedgerError;
use privymarket::errors::MarketError;
use privymarket::instructions::claim_winnings;
use privymarket::ledger::Ledger;
use privymarket::market::Market;
use privymarket::market::MarketStatus;
use privymarket::position::UserPosition;

const ADMIN: u64 = 7;
const ALICE: u64 = 11;
const BOB: u64 = 12;
const CAROL: u64 = 13;

const ALICE_SECRET: [u8; 32] = [0xA5; 32];
const BOB_SECRET: [u8; 32] = [0x5B; 32];
const CAROL_SECRET: [u8; 32] = [0x3C; 32];

/// A market with deadline 100; Alice stakes 100 on yes, Bob 200 on no.
fn settled_stage() -> Ledger {
    let mut l = Ledger::new();
    assert_eq!(l.initialize(ADMIN), Ok(()));
    assert_eq!(l.create_market(ADMIN, 1, "q".to_string(), 100, 10), Ok(()));
    let ca = compute_commitment(&ALICE_SECRET, true);
    let cb = compute_commitment(&BOB_SECRET, false);
    assert_eq!(l.place_bet(1, ALICE, ca, 100, 20), Ok(()));
    assert_eq!(l.place_bet(1, BOB, cb, 200, 21), Ok(()));
    l
}

#[test]
fn claim_rejected_before_resolution() {
    let mut l = settled_stage();
    assert_eq!(
        l.claim_winnings(1, ALICE, &ALICE_SECRET, true),
        Err(LedgerError::Market(MarketError::MarketNotResolved))
    );
    assert!(!l.position(1, ALICE).unwrap().claimed);
}

#[test]
fn claim_rejected_for_unknown_market_or_position() {
    let mut l = settled_stage();
    assert_eq!(l.resolve_market(ADMIN, 1, true, 101), Ok(()));
    assert_eq!(l.claim_winnings(9, ALICE, &ALICE_SECRET, true), Err(LedgerError::NotFound));
    assert_eq!(l.claim_winnings(1, CAROL, &CAROL_SECRET, true), Err(LedgerError::NotFound));
}

#[test]
fn claim_rejected_with_wrong_secret() {
    let mut l = settled_stage();
    assert_eq!(l.resolve_market(ADMIN, 1, true, 101), Ok(()));
    // flip a single bit of the secret: the recomputed digest must differ
    let mut wrong = ALICE_SECRET;
    wrong[0] ^= 0x01;
    assert_eq!(
        l.claim_winnings(1, ALICE, &wrong, true),
        Err(LedgerError::Market(MarketError::InvalidCommitment))
    );
    assert!(!l.position(1, ALICE).unwrap().claimed);
    assert_eq!(l.market(1).unwrap().total_yes_pool, 0);
    assert_eq!(l.vault_balance(1), Some(300));
}

#[test]
fn claim_rejected_with_flipped_side() {
    let mut l = settled_stage();
    assert_eq!(l.resolve_market(ADMIN, 1, false, 101), Ok(()));
    // Alice committed to yes; pretending she chose no changes the side
    // byte, so the digest no longer matches her stored commitment
    assert_eq!(
        l.claim_winnings(1, ALICE, &ALICE_SECRET, false),
        Err(LedgerError::Market(MarketError::InvalidCommitment))
    );
    assert!(!l.position(1, ALICE).unwrap().claimed);
}

#[test]
fn commitment_depends_on_secret_and_side() {
    let yes = compute_commitment(&ALICE_SECRET, true);
    let no = compute_commitment(&ALICE_SECRET, false);
    assert_ne!(yes, no);
    let mut flipped = ALICE_SECRET;
    flipped[31] ^= 0x80;
    assert_ne!(compute_commitment(&flipped, true), yes);
    // the digest is not the secret handed back
    assert_ne!(yes, ALICE_SECRET);
    assert!(bytes32_eq(&yes, &compute_commitment(&ALICE_SECRET, true)));
    assert!(!bytes32_eq(&yes, &no));
}

#[test]
fn honest_loser_is_not_a_winner() {
    let mut l = settled_stage();
    assert_eq!(l.resolve_market(ADMIN, 1, true, 101), Ok(()));
    // Bob reveals honestly: digest matches, but his side lost
    assert_eq!(
        l.claim_winnings(1, BOB, &BOB_SECRET, false),
        Err(LedgerError::Market(MarketError::NotAWinner))
    );
    // nothing was mutated by the failed claim
    assert!(!l.position(1, BOB).unwrap().claimed);
    let m = l.market(1).unwrap();
    assert_eq!(m.total_yes_pool, 0);
    assert_eq!(m.total_no_pool, 0);
    assert_eq!(l.vault_balance(1), Some(300));
}

#[test]
fn winner_payout_is_stake_plus_share_of_losing_pool() {
    let mut l = settled_stage();
    assert_eq!(l.resolve_market(ADMIN, 1, true, 101), Ok(()));
    // vault holds every stake before the claim
    assert_eq!(l.vault_balance(1), Some(300));
    // first claim: winning pool 100, losing pool 300 - 100 = 200,
    // payout = 100 + floor(100 * 200 / 100) = 300
    assert_eq!(l.claim_winnings(1, ALICE, &ALICE_SECRET, true), Ok(300));
    assert!(l.position(1, ALICE).unwrap().claimed);
    let m = l.market(1).unwrap();
    assert_eq!(m.total_yes_pool, 100);
    assert_eq!(m.total_no_pool, 0);
    assert_eq!(m.total_pool, 300);
    assert_eq!(l.vault_balance(1), Some(0));
}

#[test]
fn double_claim_is_rejected() {
    let mut l = settled_stage();
    assert_eq!(l.resolve_market(ADMIN, 1, true, 101), Ok(()));
    assert_eq!(l.claim_winnings(1, ALICE, &ALICE_SECRET, true), Ok(300));
    assert_eq!(
        l.claim_winnings(1, ALICE, &ALICE_SECRET, true),
        Err(LedgerError::Market(MarketError::AlreadyClaimed))
    );
    // the failed second claim moved no funds and touched no pool
    assert_eq!(l.market(1).unwrap().total_yes_pool, 100);
    assert_eq!(l.vault_balance(1), Some(0));
}

#[test]
fn payout_rounds_down() {
    // once part of the winning side is already discovered, the share of
    // the losing pool is a proper fraction and rounds down:
    // winning pool 50 + 100 = 150, losing pool 200 - 150 = 50,
    // payout = 100 + floor(100 * 50 / 150) = 100 + 33
    let mut m = Market {
        market_id: 1,
        creator: ADMIN,
        question: "q".to_string(),
        deadline: 100,
        status: MarketStatus::Resolved,
        outcome: Some(true),
        total_pool: 200,
        total_yes_pool: 50,
        total_no_pool: 0,
        created_at: 10,
    };
    let mut p = UserPosition {
        user: ALICE,
        market: 1,
        commitment: compute_commitment(&ALICE_SECRET, true),
        amount: 100,
        claimed: false,
        created_at: 20,
    };
    assert_eq!(claim_winnings::handler(&mut m, &mut p, 1_000, &ALICE_SECRET, true), Ok(133));
    assert!(p.claimed);
    assert_eq!(m.total_yes_pool, 150);
    assert_eq!(m.total_no_pool, 0);
    assert_eq!(m.total_pool, 200);
}

#[test]
fn early_claimant_can_drain_the_vault() {
    // The discovered winning pool grows only as winners reveal, so an
    // early claimant divides the losing pool among fewer known winners
    // and a later winner can find the vault short.
    let mut l = Ledger::new();
    assert_eq!(l.initialize(ADMIN), Ok(()));
    assert_eq!(l.create_market(ADMIN, 1, "q".to_string(), 100, 10), Ok(()));
    let ca = compute_commitment(&ALICE_SECRET, true);
    let cc = compute_commitment(&CAROL_SECRET, true);
    let cb = compute_commitment(&BOB_SECRET, false);
    assert_eq!(l.place_bet(1, ALICE, ca, 100, 20), Ok(()));
    assert_eq!(l.place_bet(1, CAROL, cc, 100, 21), Ok(()));
    assert_eq!(l.place_bet(1, BOB, cb, 200, 22), Ok(()));
    assert_eq!(l.resolve_market(ADMIN, 1, true, 101), Ok(()));
    // Alice claims first: winning pool 100, losing pool 400 - 100 = 300,
    // payout = 100 + 300 = 400 — the whole vault
    assert_eq!(l.claim_winnings(1, ALICE, &ALICE_SECRET, true), Ok(400));
    assert_eq!(l.vault_balance(1), Some(0));
    // Carol, an equal winner, is left unpaid
    assert_eq!(
        l.claim_winnings(1, CAROL, &CAROL_SECRET, true),
        Err(LedgerError::Market(MarketError::InsufficientVaultBalance))
    );
    assert!(!l.position(1, CAROL).unwrap().claimed);
}

#[test]
fn claim_payout_overflow_aborts_with_no_effect() {
    let mut l = Ledger::new();
    assert_eq!(l.initialize(ADMIN), Ok(()));
    assert_eq!(l.create_market(ADMIN, 1, "q".to_string(), 100, 10), Ok(()));
    let big: u64 = 1 << 33;
    let ca = compute_commitment(&ALICE_SECRET, true);
    let cb = compute_commitment(&BOB_SECRET, false);
    assert_eq!(l.place_bet(1, ALICE, ca, big, 20), Ok(()));
    assert_eq!(l.place_bet(1, BOB, cb, big, 21), Ok(()));
    assert_eq!(l.resolve_market(ADMIN, 1, true, 101), Ok(()));
    // the payout numerator 2^33 * 2^33 does not fit in 64 bits
    assert_eq!(l.claim_winnings(1, ALICE, &ALICE_SECRET, true), Err(LedgerError::Overflow));
    assert!(!l.position(1, ALICE).unwrap().claimed);
    assert_eq!(l.market(1).unwrap().total_yes_pool, 0);
    assert_eq!(l.vault_balance(1), Some(big * 2));
}

#[test]
fn end_to_end_commit_reveal_settlement() {
    let mut l = Ledger::new();
    assert_eq!(l.initialize(ADMIN), Ok(()));
    // create a market whose deadline is 100 ticks ahead
    let t: i64 = 1_000;
    assert_eq!(
        l.create_market(ADMIN, 1, "Will the launch happen?".to_string(), t + 100, t),
        Ok(())
    );
    // Alice stakes 100 committed to yes, Bob 200 committed to no
    let ca = compute_commitment(&ALICE_SECRET, true);
    let cb = compute_commitment(&BOB_SECRET, false);
    assert_eq!(l.place_bet(1, ALICE, ca, 100, t + 1), Ok(()));
    assert_eq!(l.place_bet(1, BOB, cb, 200, t + 2), Ok(()));
    assert_eq!(l.market(1).unwrap().total_pool, 300);
    // past the deadline the authority resolves: yes
    assert_eq!(l.resolve_market(ADMIN, 1, true, t + 101), Ok(()));
    // the vault holds at least Alice's coming payout before her claim
    assert!(l.vault_balance(1).unwrap() >= 300);
    // winning pool 100, losing pool 300 - 100 = 200, payout 100 + 200
    assert_eq!(l.claim_winnings(1, ALICE, &ALICE_SECRET, true), Ok(300));
    assert!(l.position(1, ALICE).unwrap().claimed);
    assert_eq!(l.vault_balance(1), Some(0));
}

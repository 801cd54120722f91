use vstd::prelude::*;

use crate::commitment::bytes32_eq;
use crate::commitment::commitment_digest;
use crate::commitment::compute_commitment;
use crate::errors::MarketError;
use crate::market::Market;
use crate::market::MarketStatus;
use crate::position::UserPosition;
use vstd::arithmetic::div_mod::lemma_div_is_ordered;
use vstd::arithmetic::div_mod::lemma_div_multiples_vanish;
use vstd::arithmetic::mul::lemma_mul_inequality;

verus! {

/// All four reveal-time checks: the market is resolved, the position was
/// not claimed before, the revealed secret and side reproduce the stored
/// commitment bit-exactly, and the revealed side is the winning outcome.
pub open spec fn claim_checks_pass(m: Market, p: UserPosition, secret: Seq<u8>, side: bool) -> bool {
    &&& m.status == MarketStatus::Resolved
    &&& !p.claimed
    &&& commitment_digest(secret, side) == p.commitment@
    &&& m.outcome == Some(side)
}

/// The winning pool as the payout sees it: the pool of the revealed side
/// after this claim's own stake has been added to it.
pub open spec fn winning_pool_after(m: Market, p: UserPosition, side: bool) -> int {
    m.side_pool(side) + p.amount
}

/// The losing pool as the payout sees it: whatever part of the total pool
/// the winning pool does not account for, never below zero.
pub open spec fn losing_pool_after(m: Market, p: UserPosition, side: bool) -> int {
    if m.total_pool >= winning_pool_after(m, p, side) {
        m.total_pool - winning_pool_after(m, p, side)
    } else {
        0
    }
}

/// The pari-mutuel payout: the stake itself plus the stake's proportional
/// share of the losing pool, in exact integer arithmetic.
pub open spec fn payout_amount(amount: int, losing_pool: int, winning_pool: int) -> int
    recommends
        winning_pool > 0,
{
    amount + (amount * losing_pool) / winning_pool
}

/// This claim's payout against a given market and position.
pub open spec fn claim_payout(m: Market, p: UserPosition, side: bool) -> int {
    payout_amount(p.amount as int, losing_pool_after(m, p, side), winning_pool_after(m, p, side))
}

/// The machine limits of an accepted claim: the grown side pool and the
/// payout numerator must fit in 64 bits. An operation that would exceed
/// them is a fatal precondition failure.
pub open spec fn claim_fits(m: Market, p: UserPosition, side: bool) -> bool {
    &&& winning_pool_after(m, p, side) <= u64::MAX
    &&& p.amount * losing_pool_after(m, p, side) <= u64::MAX
}

/// A stake no larger than the winning pool never draws more than the whole
/// losing pool as its proportional share.
pub proof fn lemma_share_le_losing(amount: int, losing: int, winning: int)
    requires
        0 <= amount,
        0 <= losing,
        0 < winning,
        amount <= winning,
    ensures
        0 <= (amount * losing) / winning <= losing,
{
    lemma_mul_inequality(amount, winning, losing);
    lemma_div_is_ordered(0, amount * losing, winning);
    lemma_div_is_ordered(amount * losing, winning * losing, winning);
    lemma_div_multiples_vanish(losing, winning);
    assert(0int / winning == 0) by {
        vstd::arithmetic::div_mod::lemma_div_of0(winning);
    }
}

/// Verify a reveal and pay a winner. The checks run in a fixed order and
/// nothing is mutated unless every one of them passes: then the stake is
/// added to the winning side's pool (pool discovery is lazy: only now does
/// the engine learn which side this stake was on), the position is marked
/// claimed, and the payout that the vault owes the bettor is returned. The
/// claimed flag must be committed before the outward transfer is made; the
/// caller holds both effects in one atomic operation.
pub fn handler(
    market: &mut Market,
    user_position: &mut UserPosition,
    vault_balance: u64,
    secret: &[u8; 32],
    claimed_side: bool,
) -> (r: Result<u64, MarketError>)
    requires
        old(market).wf(),
        claim_checks_pass(*old(market), *old(user_position), secret@, claimed_side) ==> claim_fits(
            *old(market),
            *old(user_position),
            claimed_side,
        ),
    ensures
        r is Err ==> *final(market) == *old(market) && *final(user_position) == *old(
            user_position,
        ),
        old(market).status != MarketStatus::Resolved ==> r == Err::<u64, MarketError>(
            MarketError::MarketNotResolved,
        ),
        old(market).status == MarketStatus::Resolved && old(user_position).claimed ==> r == Err::<
            u64,
            MarketError,
        >(MarketError::AlreadyClaimed),
        old(market).status == MarketStatus::Resolved && !old(user_position).claimed
            && commitment_digest(secret@, claimed_side) != old(user_position).commitment@ ==> r
            == Err::<u64, MarketError>(MarketError::InvalidCommitment),
        old(market).status == MarketStatus::Resolved && !old(user_position).claimed
            && commitment_digest(secret@, claimed_side) == old(user_position).commitment@ && old(
            market,
        ).outcome != Some(claimed_side) ==> r == Err::<u64, MarketError>(MarketError::NotAWinner),
        claim_checks_pass(*old(market), *old(user_position), secret@, claimed_side)
            && winning_pool_after(*old(market), *old(user_position), claimed_side) == 0 ==> r
            == Err::<u64, MarketError>(MarketError::ZeroWinningPool),
        claim_checks_pass(*old(market), *old(user_position), secret@, claimed_side)
            && winning_pool_after(*old(market), *old(user_position), claimed_side) > 0
            && vault_balance < claim_payout(*old(market), *old(user_position), claimed_side) ==> r
            == Err::<u64, MarketError>(MarketError::InsufficientVaultBalance),
        r is Ok <==> claim_checks_pass(*old(market), *old(user_position), secret@, claimed_side)
            && winning_pool_after(*old(market), *old(user_position), claimed_side) > 0
            && vault_balance >= claim_payout(*old(market), *old(user_position), claimed_side),
        r is Ok ==> r->Ok_0 == claim_payout(*old(market), *old(user_position), claimed_side),
        r is Ok ==> *final(user_position) == (UserPosition {
            claimed: true,
            ..*old(user_position)
        }),
        r is Ok ==> *final(market) == (Market {
            total_yes_pool: if claimed_side {
                (old(market).total_yes_pool + old(user_position).amount) as u64
            } else {
                old(market).total_yes_pool
            },
            total_no_pool: if !claimed_side {
                (old(market).total_no_pool + old(user_position).amount) as u64
            } else {
                old(market).total_no_pool
            },
            ..*old(market)
        }),
{
    if market.status != MarketStatus::Resolved {
        return Err(MarketError::MarketNotResolved);
    }
    if user_position.claimed {
        return Err(MarketError::AlreadyClaimed);
    }
    let recomputed = compute_commitment(secret, claimed_side);
    if !bytes32_eq(&recomputed, &user_position.commitment) {
        return Err(MarketError::InvalidCommitment);
    }
    let winning_outcome = market.outcome.unwrap();
    if claimed_side != winning_outcome {
        return Err(MarketError::NotAWinner);
    }
    let bet_amount = user_position.amount;
    let winning_pool = if claimed_side {
        market.total_yes_pool + bet_amount
    } else {
        market.total_no_pool + bet_amount
    };
    let losing_pool = if market.total_pool >= winning_pool {
        market.total_pool - winning_pool
    } else {
        0
    };
    if winning_pool == 0 {
        return Err(MarketError::ZeroWinningPool);
    }
    proof {
        lemma_share_le_losing(bet_amount as int, losing_pool as int, winning_pool as int);
    }
    let share = (bet_amount * losing_pool) / winning_pool;
    let payout = bet_amount + share;
    if vault_balance < payout {
        return Err(MarketError::InsufficientVaultBalance);
    }
    user_position.claimed = true;
    if claimed_side {
        market.total_yes_pool = winning_pool;
    } else {
        market.total_no_pool = winning_pool;
    }
    Ok(payout)
}

} // verus!

use vstd::prelude::*;

use crate::position::UserPosition;

verus! {

/// What one position contributes to a market's total pool: its stake if it
/// belongs to that market, nothing otherwise.
pub open spec fn stake_contrib(p: UserPosition, market_id: u64) -> int {
    if p.market == market_id {
        p.amount as int
    } else {
        0
    }
}

/// What one position contributes to a market's discovered (yes plus no)
/// pools: its stake once it has been claimed, nothing before.
pub open spec fn claimed_contrib(p: UserPosition, market_id: u64) -> int {
    if p.market == market_id && p.claimed {
        p.amount as int
    } else {
        0
    }
}

/// The sum of the stakes of every position on one market.
pub open spec fn stake_sum(ps: Seq<UserPosition>, market_id: u64) -> int
    decreases ps.len(),
{
    if ps.len() == 0 {
        0
    } else {
        stake_sum(ps.drop_last(), market_id) + stake_contrib(ps.last(), market_id)
    }
}

/// The sum of the stakes of every claimed position on one market.
pub open spec fn claimed_stake_sum(ps: Seq<UserPosition>, market_id: u64) -> int
    decreases ps.len(),
{
    if ps.len() == 0 {
        0
    } else {
        claimed_stake_sum(ps.drop_last(), market_id) + claimed_contrib(ps.last(), market_id)
    }
}

/// Appending a position grows each sum by exactly that position's
/// contribution.
pub proof fn lemma_sums_push(ps: Seq<UserPosition>, p: UserPosition, market_id: u64)
    ensures
        stake_sum(ps.push(p), market_id) == stake_sum(ps, market_id) + stake_contrib(p, market_id),
        claimed_stake_sum(ps.push(p), market_id) == claimed_stake_sum(ps, market_id)
            + claimed_contrib(p, market_id),
{
    assert(ps.push(p).drop_last() =~= ps);
}

/// Replacing one position shifts each sum by the difference of the old and
/// the new contribution of that slot.
pub proof fn lemma_sums_update(ps: Seq<UserPosition>, i: int, p: UserPosition, market_id: u64)
    requires
        0 <= i < ps.len(),
    ensures
        stake_sum(ps.update(i, p), market_id) == stake_sum(ps, market_id) - stake_contrib(
            ps[i],
            market_id,
        ) + stake_contrib(p, market_id),
        claimed_stake_sum(ps.update(i, p), market_id) == claimed_stake_sum(ps, market_id)
            - claimed_contrib(ps[i], market_id) + claimed_contrib(p, market_id),
    decreases ps.len(),
{
    if i == ps.len() - 1 {
        assert(ps.update(i, p).drop_last() =~= ps.drop_last());
        assert(ps.update(i, p).last() == p);
    } else {
        assert(ps.update(i, p).drop_last() =~= ps.drop_last().update(i, p));
        assert(ps.update(i, p).last() == ps.last());
        lemma_sums_update(ps.drop_last(), i, p, market_id);
    }
}

/// A market that no position refers to has empty sums.
pub proof fn lemma_sums_absent(ps: Seq<UserPosition>, market_id: u64)
    requires
        forall|i: int| 0 <= i < ps.len() ==> (#[trigger] ps[i]).market != market_id,
    ensures
        stake_sum(ps, market_id) == 0,
        claimed_stake_sum(ps, market_id) == 0,
    decreases ps.len(),
{
    if ps.len() > 0 {
        lemma_sums_absent(ps.drop_last(), market_id);
    }
}

/// Both sums are non-negative, and the claimed sum never exceeds the full
/// one: claimed positions are a subset of all positions.
pub proof fn lemma_sums_bounds(ps: Seq<UserPosition>, market_id: u64)
    ensures
        0 <= claimed_stake_sum(ps, market_id),
        claimed_stake_sum(ps, market_id) <= stake_sum(ps, market_id),
    decreases ps.len(),
{
    if ps.len() > 0 {
        lemma_sums_bounds(ps.drop_last(), market_id);
    }
}

/// An unclaimed position's stake still fits between the claimed sum and
/// the full sum: the pool it will join on its own claim cannot overrun the
/// market's total pool.
pub proof fn lemma_unclaimed_fits(ps: Seq<UserPosition>, i: int, market_id: u64)
    requires
        0 <= i < ps.len(),
        ps[i].market == market_id,
        !ps[i].claimed,
    ensures
        claimed_stake_sum(ps, market_id) + ps[i].amount <= stake_sum(ps, market_id),
    decreases ps.len(),
{
    if i == ps.len() - 1 {
        lemma_sums_bounds(ps.drop_last(), market_id);
    } else {
        lemma_unclaimed_fits(ps.drop_last(), i, market_id);
        assert(claimed_contrib(ps.last(), market_id) <= stake_contrib(ps.last(), market_id));
    }
}

} // verus!

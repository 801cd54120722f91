use vstd::prelude::*;

use crate::errors::MarketError;
use crate::market::Market;
use crate::market::MarketStatus;
use crate::position::UserPosition;

verus! {

/// The inputs on which a bet is accepted: a positive amount, an open
/// market, and a deadline still strictly in the future.
pub open spec fn place_bet_accepted(m: Market, amount: u64, now: i64) -> bool {
    &&& amount > 0
    &&& m.status == MarketStatus::Open
    &&& now < m.deadline
}

/// Place a bet: record an unclaimed position holding only the commitment
/// digest — the chosen side is not stored anywhere — and grow the market's
/// total pool by the stake. The yes/no split stays hidden while the market
/// is open. On failure nothing changes.
pub fn handler(
    market: &mut Market,
    user: u64,
    commitment: [u8; 32],
    amount: u64,
    now: i64,
) -> (r: Result<UserPosition, MarketError>)
    requires
        place_bet_accepted(*old(market), amount, now) ==> old(market).total_pool + amount
            <= u64::MAX,
    ensures
        r is Ok <==> place_bet_accepted(*old(market), amount, now),
        r is Ok ==> *final(market) == (Market {
            total_pool: (old(market).total_pool + amount) as u64,
            ..*old(market)
        }),
        r is Ok ==> r->Ok_0 == (UserPosition {
            user: user,
            market: old(market).market_id,
            commitment: commitment,
            amount: amount,
            claimed: false,
            created_at: now,
        }),
        r is Err ==> *final(market) == *old(market),
        amount == 0 ==> r == Err::<UserPosition, MarketError>(MarketError::InvalidAmount),
        amount > 0 && old(market).status != MarketStatus::Open ==> r == Err::<
            UserPosition,
            MarketError,
        >(MarketError::MarketNotOpen),
        amount > 0 && old(market).status == MarketStatus::Open && now >= old(market).deadline ==> r
            == Err::<UserPosition, MarketError>(MarketError::DeadlinePassed),
{
    if amount == 0 {
        return Err(MarketError::InvalidAmount);
    }
    if market.status != MarketStatus::Open {
        return Err(MarketError::MarketNotOpen);
    }
    if now >= market.deadline {
        return Err(MarketError::DeadlinePassed);
    }
    market.total_pool = market.total_pool + amount;
    Ok(
        UserPosition {
            user,
            market: market.market_id,
            commitment,
            amount,
            claimed: false,
            created_at: now,
        },
    )
}

} // verus!

use vstd::prelude::*;

use crate::config::Config;
use crate::errors::MarketError;
use crate::market::Market;
use crate::market::MarketStatus;

verus! {

/// The inputs on which resolution succeeds: the caller is the authority,
/// the market is still open, and the deadline has passed.
pub open spec fn resolve_market_accepted(admin: u64, caller: u64, m: Market, now: i64) -> bool {
    &&& caller == admin
    &&& m.status == MarketStatus::Open
    &&& now >= m.deadline
}

/// Freeze a market with its final outcome: authority-only, only once, and
/// only at or after the deadline. Nothing but the status and the outcome
/// changes, and nothing changes at all on failure.
pub fn handler(config: &Config, caller: u64, market: &mut Market, outcome: bool, now: i64) -> (r:
    Result<(), MarketError>)
    ensures
        r is Ok <==> resolve_market_accepted(config.admin, caller, *old(market), now),
        r is Ok ==> *final(market) == (Market {
            status: MarketStatus::Resolved,
            outcome: Some(outcome),
            ..*old(market)
        }),
        r is Err ==> *final(market) == *old(market),
        caller != config.admin ==> r == Err::<(), MarketError>(MarketError::Unauthorized),
        caller == config.admin && old(market).status != MarketStatus::Open ==> r == Err::<
            (),
            MarketError,
        >(MarketError::MarketAlreadyResolved),
        caller == config.admin && old(market).status == MarketStatus::Open && now < old(
            market,
        ).deadline ==> r == Err::<(), MarketError>(MarketError::DeadlineNotPassed),
{
    match config.authorize(caller) {
        Ok(u) => u,
        Err(e) => {
            return Err(e);
        },
    }
    if market.status != MarketStatus::Open {
        return Err(MarketError::MarketAlreadyResolved);
    }
    if now < market.deadline {
        return Err(MarketError::DeadlineNotPassed);
    }
    market.outcome = Some(outcome);
    market.status = MarketStatus::Resolved;
    Ok(())
}

} // verus!

use vstd::prelude::*;

use crate::config::Config;
use crate::errors::MarketError;
use crate::market::MAX_QUESTION_LEN;
use crate::market::Market;
use crate::market::MarketStatus;
use crate::market::question_byte_len;

verus! {

/// The inputs on which market creation succeeds: the caller is the
/// authority, the question fits in 200 bytes, and the deadline lies
/// strictly in the future.
pub open spec fn create_market_accepted(
    admin: u64,
    caller: u64,
    question: Seq<char>,
    deadline: i64,
    now: i64,
) -> bool {
    &&& caller == admin
    &&& question_byte_len(question) <= MAX_QUESTION_LEN
    &&& deadline > now
}

/// Allocate a new market: authority-only, question at most 200 bytes,
/// deadline strictly after `now`. A fresh market is open, has no outcome,
/// and all three pools at zero.
pub fn handler(
    config: &Config,
    caller: u64,
    market_id: u64,
    question: String,
    deadline: i64,
    now: i64,
) -> (r: Result<Market, MarketError>)
    ensures
        r is Ok <==> create_market_accepted(config.admin, caller, question@, deadline, now),
        r is Ok ==> r->Ok_0 == (Market {
            market_id: market_id,
            creator: caller,
            question: question,
            deadline: deadline,
            status: MarketStatus::Open,
            outcome: None,
            total_pool: 0,
            total_yes_pool: 0,
            total_no_pool: 0,
            created_at: now,
        }),
        caller != config.admin ==> r == Err::<Market, MarketError>(MarketError::Unauthorized),
        caller == config.admin && question_byte_len(question@) > MAX_QUESTION_LEN ==> r == Err::<
            Market,
            MarketError,
        >(MarketError::QuestionTooLong),
        caller == config.admin && question_byte_len(question@) <= MAX_QUESTION_LEN && deadline
            <= now ==> r == Err::<Market, MarketError>(MarketError::DeadlinePassed),
{
    match config.authorize(caller) {
        Ok(u) => u,
        Err(e) => {
            return Err(e);
        },
    }
    let question_len = question.as_str().as_bytes().len();
    if question_len > MAX_QUESTION_LEN {
        return Err(MarketError::QuestionTooLong);
    }
    if deadline <= now {
        return Err(MarketError::DeadlinePassed);
    }
    Ok(
        Market {
            market_id,
            creator: caller,
            question,
            deadline,
            status: MarketStatus::Open,
            outcome: None,
            total_pool: 0,
            total_yes_pool: 0,
            total_no_pool: 0,
            created_at: now,
        },
    )
}

} // verus!

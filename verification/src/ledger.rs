use vstd::prelude::*;

use crate::config::Config;
use crate::errors::LedgerError;
use crate::errors::MarketError;
use crate::instructions::claim_winnings;
use crate::instructions::claim_winnings::claim_checks_pass;
use crate::instructions::claim_winnings::claim_payout;
use crate::instructions::claim_winnings::losing_pool_after;
use crate::instructions::create_market;
use crate::instructions::create_market::create_market_accepted;
use crate::instructions::initialize;
use crate::instructions::place_bet;
use crate::instructions::place_bet::place_bet_accepted;
use crate::instructions::resolve_market;
use crate::instructions::resolve_market::resolve_market_accepted;
use crate::market::MAX_QUESTION_LEN;
use crate::market::Market;
use crate::market::MarketStatus;
use crate::market::question_byte_len;
use crate::position::UserPosition;
use crate::sums::claimed_stake_sum;
use crate::sums::lemma_sums_absent;
use crate::sums::lemma_sums_bounds;
use crate::sums::lemma_sums_push;
use crate::sums::lemma_sums_update;
use crate::sums::lemma_unclaimed_fits;
use crate::sums::stake_sum;

verus! {

/// The escrow balance of one market: the sole destination of stakes and
/// the sole source of payouts.
#[derive(Clone, Copy, Debug, PartialEq, Eq, Structural)]
pub struct Vault {
    pub market_id: u64,
    pub balance: u64,
}

/// An in-memory model of the persistent keyed store the engine runs
/// against: the authority singleton, the markets keyed by id, one vault
/// per market, and the positions keyed by (market, bettor). Every
/// operation is atomic: it either passes all its checks and commits all
/// its effects, or it leaves the ledger exactly as it was.
pub struct Ledger {
    pub config: Option<Config>,
    pub markets: Vec<Market>,
    pub vaults: Vec<Vault>,
    pub positions: Vec<UserPosition>,
}

/// Two ledger states that agree on the authority record and on every
/// market, vault and position: what "no effect" means for a rejected
/// operation.
pub open spec fn same_state(a: Ledger, b: Ledger) -> bool {
    &&& a.config == b.config
    &&& a.markets@ == b.markets@
    &&& a.vaults@ == b.vaults@
    &&& a.positions@ == b.positions@
}

impl Ledger {
    /// The ledger-wide invariant, preserved by every operation:
    /// - market ids are unique, and each market has exactly one vault;
    /// - (market, bettor) pairs are unique: one position per bettor per
    ///   market;
    /// - every position refers to an existing market and holds a positive
    ///   stake;
    /// - every market is well-formed, its total pool is exactly the sum of
    ///   the stakes of its positions, its discovered yes and no pools sum
    ///   to exactly the stakes of its claimed positions, and its vault
    ///   never holds more than its total pool.
    pub open spec fn wf(self) -> bool {
        &&& self.vaults@.len() == self.markets@.len()
        &&& (forall|i: int|
            0 <= i < self.markets@.len() ==> (#[trigger] self.vaults@[i]).market_id
                == self.markets@[i].market_id)
        &&& (forall|i: int, j: int|
            0 <= i < j < self.markets@.len() ==> (#[trigger] self.markets@[i]).market_id != (
            #[trigger] self.markets@[j]).market_id)
        &&& (forall|i: int, j: int|
            0 <= i < j < self.positions@.len() ==> !((#[trigger] self.positions@[i]).market
                == (#[trigger] self.positions@[j]).market && self.positions@[i].user
                == self.positions@[j].user))
        &&& (forall|i: int| 0 <= i < self.positions@.len() ==> (#[trigger] self.positions@[i]).wf())
        &&& (forall|i: int|
            0 <= i < self.positions@.len() ==> self.has_market(
                (#[trigger] self.positions@[i]).market,
            ))
        &&& (forall|i: int| 0 <= i < self.markets@.len() ==> (#[trigger] self.markets@[i]).wf())
        &&& (forall|i: int|
            0 <= i < self.markets@.len() ==> (#[trigger] self.markets@[i]).total_pool == stake_sum(
                self.positions@,
                self.markets@[i].market_id,
            ))
        &&& (forall|i: int|
            0 <= i < self.markets@.len() ==> (#[trigger] self.markets@[i]).total_yes_pool
                + self.markets@[i].total_no_pool == claimed_stake_sum(
                self.positions@,
                self.markets@[i].market_id,
            ))
        &&& (forall|i: int|
            0 <= i < self.markets@.len() ==> (#[trigger] self.vaults@[i]).balance
                <= self.markets@[i].total_pool)
    }

    /// Whether a market with this id exists.
    pub open spec fn has_market(self, market_id: u64) -> bool {
        exists|i: int|
            0 <= i < self.markets@.len() && (#[trigger] self.markets@[i]).market_id == market_id
    }

    /// The slot of the market with this id (meaningful only when it
    /// exists; under `wf` it is unique).
    pub open spec fn market_index(self, market_id: u64) -> int {
        choose|i: int|
            0 <= i < self.markets@.len() && (#[trigger] self.markets@[i]).market_id == market_id
    }

    /// The market with this id.
    pub open spec fn market_at(self, market_id: u64) -> Market {
        self.markets@[self.market_index(market_id)]
    }

    /// The vault of the market with this id.
    pub open spec fn vault_at(self, market_id: u64) -> Vault {
        self.vaults@[self.market_index(market_id)]
    }

    /// Whether this bettor holds a position on this market.
    pub open spec fn has_position(self, market_id: u64, user: u64) -> bool {
        exists|i: int|
            0 <= i < self.positions@.len() && (#[trigger] self.positions@[i]).market == market_id
                && self.positions@[i].user == user
    }

    /// The slot of this bettor's position on this market (meaningful only
    /// when it exists; under `wf` it is unique).
    pub open spec fn position_index(self, market_id: u64, user: u64) -> int {
        choose|i: int|
            0 <= i < self.positions@.len() && (#[trigger] self.positions@[i]).market == market_id
                && self.positions@[i].user == user
    }

    /// This bettor's position on this market.
    pub open spec fn position_at(self, market_id: u64, user: u64) -> UserPosition {
        self.positions@[self.position_index(market_id, user)]
    }

    /// The administrative identity, once initialized.
    pub open spec fn admin_of(self) -> u64
        recommends
            self.config is Some,
    {
        match self.config {
            Some(c) => c.admin,
            None => 0,
        }
    }

    /// Under the invariant the market slot found for an id is the unique
    /// one the specification functions speak of.
    pub proof fn lemma_market_index_agrees(self, i: int, market_id: u64)
        requires
            self.wf(),
            0 <= i < self.markets@.len(),
            self.markets@[i].market_id == market_id,
        ensures
            self.has_market(market_id),
            self.market_index(market_id) == i,
            self.market_at(market_id) == self.markets@[i],
            self.vault_at(market_id) == self.vaults@[i],
    {
        assert(self.has_market(market_id));
        let j = self.market_index(market_id);
        assert(0 <= j < self.markets@.len() && self.markets@[j].market_id == market_id);
        if i < j {
            assert(self.markets@[i].market_id != self.markets@[j].market_id);
        } else if j < i {
            assert(self.markets@[j].market_id != self.markets@[i].market_id);
        }
    }

    /// Under the invariant the position slot found for a (market, bettor)
    /// pair is the unique one the specification functions speak of.
    pub proof fn lemma_position_index_agrees(self, i: int, market_id: u64, user: u64)
        requires
            self.wf(),
            0 <= i < self.positions@.len(),
            self.positions@[i].market == market_id,
            self.positions@[i].user == user,
        ensures
            self.has_position(market_id, user),
            self.position_index(market_id, user) == i,
            self.position_at(market_id, user) == self.positions@[i],
    {
        assert(self.has_position(market_id, user));
        let j = self.position_index(market_id, user);
        assert(0 <= j < self.positions@.len() && self.positions@[j].market == market_id
            && self.positions@[j].user == user);
        if i < j {
            assert(!(self.positions@[i].market == self.positions@[j].market
                && self.positions@[i].user == self.positions@[j].user));
        } else if j < i {
            assert(!(self.positions@[j].market == self.positions@[i].market
                && self.positions@[j].user == self.positions@[i].user));
        }
    }

    /// A fresh, empty ledger.
    pub fn new() -> (l: Ledger)
        ensures
            l.wf(),
            l.config is None,
            l.markets@.len() == 0,
            l.vaults@.len() == 0,
            l.positions@.len() == 0,
    {
        Ledger { config: None, markets: Vec::new(), vaults: Vec::new(), positions: Vec::new() }
    }

    /// Find the slot holding the market with this id.
    fn find_market(&self, market_id: u64) -> (r: Option<usize>)
        ensures
            match r {
                Some(i) => i < self.markets@.len() && self.markets@[i as int].market_id
                    == market_id,
                None => !self.has_market(market_id),
            },
    {
        let mut i: usize = 0;
        while i < self.markets.len()
            invariant
                i <= self.markets@.len(),
                forall|k: int| 0 <= k < i ==> (#[trigger] self.markets@[k]).market_id != market_id,
            decreases self.markets@.len() - i,
        {
            if self.markets[i].market_id == market_id {
                return Some(i);
            }
            i += 1;
        }
        None
    }

    /// Find the slot holding this bettor's position on this market.
    fn find_position(&self, market_id: u64, user: u64) -> (r: Option<usize>)
        ensures
            match r {
                Some(i) => i < self.positions@.len() && self.positions@[i as int].market
                    == market_id && self.positions@[i as int].user == user,
                None => !self.has_position(market_id, user),
            },
    {
        let mut i: usize = 0;
        while i < self.positions.len()
            invariant
                i <= self.positions@.len(),
                forall|k: int|
                    0 <= k < i ==> !((#[trigger] self.positions@[k]).market == market_id
                        && self.positions@[k].user == user),
            decreases self.positions@.len() - i,
        {
            if self.positions[i].market == market_id && self.positions[i].user == user {
                return Some(i);
            }
            i += 1;
        }
        None
    }

    /// Create the authority singleton: callable once, a no-op guard at the
    /// storage layer refuses a second creation.
    pub fn initialize(&mut self, admin: u64) -> (r: Result<(), LedgerError>)
        requires
            old(self).wf(),
        ensures
            final(self).wf(),
            r is Ok <==> old(self).config is None,
            r is Ok ==> final(self).config == Some(Config { admin: admin }),
            old(self).config is Some ==> r == Err::<(), LedgerError>(LedgerError::AlreadyExists),
            r is Err ==> *final(self) == *old(self),
            final(self).markets == old(self).markets,
            final(self).vaults == old(self).vaults,
            final(self).positions == old(self).positions,
    {
        match self.config {
            Some(_) => Err(LedgerError::AlreadyExists),
            None => {
                self.config = Some(initialize::handler(admin));
                Ok(())
            },
        }
    }

    /// Create a market under a fresh id. The store refuses a duplicate id;
    /// the engine then demands the authority as caller, a question of at
    /// most 200 bytes, and a deadline strictly after `now`.
    pub fn create_market(
        &mut self,
        caller: u64,
        market_id: u64,
        question: String,
        deadline: i64,
        now: i64,
    ) -> (r: Result<(), LedgerError>)
        requires
            old(self).wf(),
        ensures
            final(self).wf(),
            old(self).config is None ==> r == Err::<(), LedgerError>(LedgerError::NotInitialized),
            old(self).config is Some && old(self).has_market(market_id) ==> r == Err::<
                (),
                LedgerError,
            >(LedgerError::AlreadyExists),
            old(self).config is Some && !old(self).has_market(market_id) && caller != old(
                self,
            ).admin_of() ==> r == Err::<(), LedgerError>(
                LedgerError::Market(MarketError::Unauthorized),
            ),
            old(self).config is Some && !old(self).has_market(market_id) && caller == old(
                self,
            ).admin_of() && question_byte_len(question@) > MAX_QUESTION_LEN ==> r == Err::<
                (),
                LedgerError,
            >(LedgerError::Market(MarketError::QuestionTooLong)),
            old(self).config is Some && !old(self).has_market(market_id) && caller == old(
                self,
            ).admin_of() && question_byte_len(question@) <= MAX_QUESTION_LEN && deadline <= now
                ==> r == Err::<(), LedgerError>(LedgerError::Market(MarketError::DeadlinePassed)),
            r is Ok <==> old(self).config is Some && !old(self).has_market(market_id)
                && create_market_accepted(old(self).admin_of(), caller, question@, deadline, now),
            r is Ok ==> final(self).markets@ == old(self).markets@.push(
                Market {
                    market_id: market_id,
                    creator: caller,
                    question: question,
                    deadline: deadline,
                    status: MarketStatus::Open,
                    outcome: None,
                    total_pool: 0,
                    total_yes_pool: 0,
                    total_no_pool: 0,
                    created_at: now,
                },
            ) && final(self).vaults@ == old(self).vaults@.push(
                Vault { market_id: market_id, balance: 0 },
            ),
            r is Err ==> *final(self) == *old(self),
            final(self).config == old(self).config,
            final(self).positions == old(self).positions,
    {
        let cfg = match self.config {
            Some(c) => c,
            None => {
                return Err(LedgerError::NotInitialized);
            },
        };
        match self.find_market(market_id) {
            Some(_) => {
                return Err(LedgerError::AlreadyExists);
            },
            None => {},
        }
        match create_market::handler(&cfg, caller, market_id, question, deadline, now) {
            Ok(m) => {
                proof {
                    assert forall|j: int| 0 <= j < self.positions@.len() implies (
                    #[trigger] self.positions@[j]).market != market_id by {
                        if self.positions@[j].market == market_id {
                            assert(self.has_market(market_id));
                        }
                    }
                    lemma_sums_absent(self.positions@, market_id);
                }
                self.markets.push(m);
                self.vaults.push(Vault { market_id, balance: 0 });
                proof {
                    let ms = self.markets@;
                    let ps = self.positions@;
                    assert forall|j: int|
                        0 <= j < ps.len() implies self.has_market(
                        (#[trigger] ps[j]).market,
                    ) by {
                        let w = choose|w: int|
                            0 <= w < old(self).markets@.len() && (#[trigger] old(
                                self,
                            ).markets@[w]).market_id == ps[j].market;
                        assert(old(self).has_market(ps[j].market));
                        assert(ms[w].market_id == ps[j].market);
                    }
                }
                Ok(())
            },
            Err(e) => Err(LedgerError::Market(e)),
        }
    }

    /// Place a bet: deposit `amount` into the market's vault and record an
    /// unclaimed position carrying only the commitment digest. The store
    /// refuses a second position by the same bettor on the same market; a
    /// stake that would push the total pool past the integer range aborts
    /// the operation with no effect.
    pub fn place_bet(
        &mut self,
        market_id: u64,
        user: u64,
        commitment: [u8; 32],
        amount: u64,
        now: i64,
    ) -> (r: Result<(), LedgerError>)
        requires
            old(self).wf(),
        ensures
            final(self).wf(),
            !old(self).has_market(market_id) ==> r == Err::<(), LedgerError>(LedgerError::NotFound),
            old(self).has_market(market_id) && old(self).has_position(market_id, user) ==> r
                == Err::<(), LedgerError>(LedgerError::AlreadyExists),
            ({
                let m = old(self).market_at(market_id);
                &&& (old(self).has_market(market_id) && !old(self).has_position(market_id, user)
                    && place_bet_accepted(m, amount, now) && m.total_pool + amount > u64::MAX ==> r
                    == Err::<(), LedgerError>(LedgerError::Overflow))
                &&& (old(self).has_market(market_id) && !old(self).has_position(market_id, user)
                    && amount == 0 ==> r == Err::<(), LedgerError>(
                    LedgerError::Market(MarketError::InvalidAmount),
                ))
                &&& (old(self).has_market(market_id) && !old(self).has_position(market_id, user)
                    && amount > 0 && m.status != MarketStatus::Open ==> r == Err::<(), LedgerError>(
                    LedgerError::Market(MarketError::MarketNotOpen),
                ))
                &&& (old(self).has_market(market_id) && !old(self).has_position(market_id, user)
                    && amount > 0 && m.status == MarketStatus::Open && now >= m.deadline ==> r
                    == Err::<(), LedgerError>(LedgerError::Market(MarketError::DeadlinePassed)))
                &&& (r is Ok <==> old(self).has_market(market_id) && !old(self).has_position(
                    market_id,
                    user,
                ) && place_bet_accepted(m, amount, now) && m.total_pool + amount <= u64::MAX)
                &&& (r is Ok ==> {
                    let mi = old(self).market_index(market_id);
                    let v = old(self).vault_at(market_id);
                    &&& final(self).markets@ == old(self).markets@.update(
                        mi,
                        (Market { total_pool: (m.total_pool + amount) as u64, ..m }),
                    )
                    &&& final(self).positions@ == old(self).positions@.push(
                        (UserPosition {
                            user: user,
                            market: market_id,
                            commitment: commitment,
                            amount: amount,
                            claimed: false,
                            created_at: now,
                        }),
                    )
                    &&& final(self).vaults@ == old(self).vaults@.update(
                        mi,
                        (Vault { balance: (v.balance + amount) as u64, ..v }),
                    )
                })
            }),
            r is Err ==> same_state(*final(self), *old(self)),
            final(self).config == old(self).config,
    {
        let mi = match self.find_market(market_id) {
            Some(i) => i,
            None => {
                return Err(LedgerError::NotFound);
            },
        };
        proof {
            self.lemma_market_index_agrees(mi as int, market_id);
        }
        match self.find_position(market_id, user) {
            Some(_) => {
                return Err(LedgerError::AlreadyExists);
            },
            None => {},
        }
        if amount > 0 && self.markets[mi].status == MarketStatus::Open && now
            < self.markets[mi].deadline {
            if self.markets[mi].total_pool > u64::MAX - amount {
                return Err(LedgerError::Overflow);
            }
        }
        let ghost old_positions = self.positions@;
        let m = &mut self.markets[mi];
        match place_bet::handler(m, user, commitment, amount, now) {
            Ok(p) => {
                self.positions.push(p);
                let v = &mut self.vaults[mi];
                proof {
                    assert(old(self).vaults@[mi as int].balance
                        <= old(self).markets@[mi as int].total_pool);
                }
                v.balance = v.balance + amount;
                proof {
                    let ps = self.positions@;
                    let ms = self.markets@;
                    assert forall|k: int| 0 <= k < ms.len() implies {
                        &&& (#[trigger] ms[k]).total_pool == stake_sum(ps, ms[k].market_id)
                        &&& ms[k].total_yes_pool + ms[k].total_no_pool == claimed_stake_sum(
                            ps,
                            ms[k].market_id,
                        )
                    } by {
                        lemma_sums_push(old_positions, p, ms[k].market_id);
                        if k != mi as int {
                            assert(ms[k] == old(self).markets@[k]);
                            assert(ms[k].market_id != market_id);
                        }
                    }
                    assert forall|j: int|
                        0 <= j < ps.len() implies self.has_market(
                        (#[trigger] ps[j]).market,
                    ) by {
                        if j < ps.len() - 1 {
                            let w = choose|w: int|
                                0 <= w < old(self).markets@.len() && (#[trigger] old(
                                    self,
                                ).markets@[w]).market_id == ps[j].market;
                            assert(old(self).has_market(ps[j].market));
                            assert(self.markets@[w].market_id == ps[j].market);
                        } else {
                            assert(self.markets@[mi as int].market_id == ps[j].market);
                        }
                    }
                }
                Ok(())
            },
            Err(e) => {
                proof {
                    assert(self.markets@ =~= old(self).markets@);
                }
                Err(LedgerError::Market(e))
            },
        }
    }

    /// Resolve a market: authority-only, only once, only at or after the
    /// deadline. The outcome is recorded and the market frozen; no further
    /// bets can pass its gate afterwards.
    pub fn resolve_market(&mut self, caller: u64, market_id: u64, outcome: bool, now: i64) -> (r:
        Result<(), LedgerError>)
        requires
            old(self).wf(),
        ensures
            final(self).wf(),
            old(self).config is None ==> r == Err::<(), LedgerError>(LedgerError::NotInitialized),
            old(self).config is Some && !old(self).has_market(market_id) ==> r == Err::<
                (),
                LedgerError,
            >(LedgerError::NotFound),
            ({
                let m = old(self).market_at(market_id);
                &&& (old(self).config is Some && old(self).has_market(market_id) && caller != old(
                    self,
                ).admin_of() ==> r == Err::<(), LedgerError>(
                    LedgerError::Market(MarketError::Unauthorized),
                ))
                &&& (old(self).config is Some && old(self).has_market(market_id) && caller == old(
                    self,
                ).admin_of() && m.status != MarketStatus::Open ==> r == Err::<(), LedgerError>(
                    LedgerError::Market(MarketError::MarketAlreadyResolved),
                ))
                &&& (old(self).config is Some && old(self).has_market(market_id) && caller == old(
                    self,
                ).admin_of() && m.status == MarketStatus::Open && now < m.deadline ==> r == Err::<
                    (),
                    LedgerError,
                >(LedgerError::Market(MarketError::DeadlineNotPassed)))
                &&& (r is Ok <==> old(self).config is Some && old(self).has_market(market_id)
                    && resolve_market_accepted(old(self).admin_of(), caller, m, now))
                &&& (r is Ok ==> final(self).markets@ == old(self).markets@.update(
                    old(self).market_index(market_id),
                    (Market { status: MarketStatus::Resolved, outcome: Some(outcome), ..m }),
                ))
            }),
            r is Err ==> same_state(*final(self), *old(self)),
            final(self).config == old(self).config,
            final(self).positions == old(self).positions,
            final(self).vaults == old(self).vaults,
    {
        let cfg = match self.config {
            Some(c) => c,
            None => {
                return Err(LedgerError::NotInitialized);
            },
        };
        let mi = match self.find_market(market_id) {
            Some(i) => i,
            None => {
                return Err(LedgerError::NotFound);
            },
        };
        proof {
            self.lemma_market_index_agrees(mi as int, market_id);
        }
        let m = &mut self.markets[mi];
        match resolve_market::handler(&cfg, caller, m, outcome, now) {
            Ok(u) => {
                proof {
                    let ms = self.markets@;
                    assert forall|k: int| 0 <= k < ms.len() implies {
                        &&& (#[trigger] ms[k]).total_pool == stake_sum(
                            self.positions@,
                            ms[k].market_id,
                        )
                        &&& ms[k].total_yes_pool + ms[k].total_no_pool == claimed_stake_sum(
                            self.positions@,
                            ms[k].market_id,
                        )
                    } by {
                        if k != mi as int {
                            assert(ms[k] == old(self).markets@[k]);
                        }
                    }
                    assert forall|j: int|
                        0 <= j < self.positions@.len() implies self.has_market(
                        (#[trigger] self.positions@[j]).market,
                    ) by {
                        let w = choose|w: int|
                            0 <= w < old(self).markets@.len() && (#[trigger] old(
                                self,
                            ).markets@[w]).market_id == self.positions@[j].market;
                        assert(old(self).has_market(self.positions@[j].market));
                        assert(self.markets@[w].market_id == self.positions@[j].market);
                    }
                }
                Ok(u)
            },
            Err(e) => {
                proof {
                    assert(self.markets@ =~= old(self).markets@);
                }
                Err(LedgerError::Market(e))
            },
        }
    }

    /// Reveal and claim: verify the secret and side against the stored
    /// commitment, add the stake to the winning side's pool, mark the
    /// position claimed, and pay `stake + floor(stake * losing_pool /
    /// winning_pool)` out of the vault — all atomically, and only if every
    /// check passes. A payout whose numerator would exceed the integer
    /// range aborts the operation with no effect.
    pub fn claim_winnings(
        &mut self,
        market_id: u64,
        user: u64,
        secret: &[u8; 32],
        claimed_side: bool,
    ) -> (r: Result<u64, LedgerError>)
        requires
            old(self).wf(),
        ensures
            final(self).wf(),
            !old(self).has_market(market_id) ==> r == Err::<u64, LedgerError>(
                LedgerError::NotFound,
            ),
            old(self).has_market(market_id) && !old(self).has_position(market_id, user) ==> r
                == Err::<u64, LedgerError>(LedgerError::NotFound),
            ({
                let m = old(self).market_at(market_id);
                let p = old(self).position_at(market_id, user);
                let v = old(self).vault_at(market_id);
                let found = old(self).has_market(market_id) && old(self).has_position(
                    market_id,
                    user,
                );
                &&& (found && m.status != MarketStatus::Resolved ==> r == Err::<u64, LedgerError>(
                    LedgerError::Market(MarketError::MarketNotResolved),
                ))
                &&& (found && m.status == MarketStatus::Resolved && p.claimed ==> r == Err::<
                    u64,
                    LedgerError,
                >(LedgerError::Market(MarketError::AlreadyClaimed)))
                &&& (found && m.status == MarketStatus::Resolved && !p.claimed
                    && crate::commitment::commitment_digest(secret@, claimed_side) != p.commitment@
                    ==> r == Err::<u64, LedgerError>(
                    LedgerError::Market(MarketError::InvalidCommitment),
                ))
                &&& (found && m.status == MarketStatus::Resolved && !p.claimed
                    && crate::commitment::commitment_digest(secret@, claimed_side) == p.commitment@
                    && m.outcome != Some(claimed_side) ==> r == Err::<u64, LedgerError>(
                    LedgerError::Market(MarketError::NotAWinner),
                ))
                &&& (found && claim_checks_pass(m, p, secret@, claimed_side) && p.amount
                    * losing_pool_after(m, p, claimed_side) > u64::MAX ==> r == Err::<
                    u64,
                    LedgerError,
                >(LedgerError::Overflow))
                &&& (found && claim_checks_pass(m, p, secret@, claimed_side) && p.amount
                    * losing_pool_after(m, p, claimed_side) <= u64::MAX && v.balance
                    < claim_payout(m, p, claimed_side) ==> r == Err::<u64, LedgerError>(
                    LedgerError::Market(MarketError::InsufficientVaultBalance),
                ))
                &&& (r is Ok <==> found && claim_checks_pass(m, p, secret@, claimed_side)
                    && p.amount * losing_pool_after(m, p, claimed_side) <= u64::MAX && v.balance
                    >= claim_payout(m, p, claimed_side))
                &&& (r is Ok ==> {
                    let mi = old(self).market_index(market_id);
                    let pi = old(self).position_index(market_id, user);
                    let payout = claim_payout(m, p, claimed_side);
                    &&& r->Ok_0 == payout
                    &&& final(self).markets@ == old(self).markets@.update(
                        mi,
                        (Market {
                            total_yes_pool: if claimed_side {
                                (m.total_yes_pool + p.amount) as u64
                            } else {
                                m.total_yes_pool
                            },
                            total_no_pool: if !claimed_side {
                                (m.total_no_pool + p.amount) as u64
                            } else {
                                m.total_no_pool
                            },
                            ..m
                        }),
                    )
                    &&& final(self).positions@ == old(self).positions@.update(
                        pi,
                        (UserPosition { claimed: true, ..p }),
                    )
                    &&& final(self).vaults@ == old(self).vaults@.update(
                        mi,
                        (Vault { balance: (v.balance - payout) as u64, ..v }),
                    )
                })
            }),
            r != Err::<u64, LedgerError>(LedgerError::Market(MarketError::ZeroWinningPool)),
            r is Err ==> same_state(*final(self), *old(self)),
            final(self).config == old(self).config,
    {
        let mi = match self.find_market(market_id) {
            Some(i) => i,
            None => {
                return Err(LedgerError::NotFound);
            },
        };
        proof {
            self.lemma_market_index_agrees(mi as int, market_id);
        }
        let pi = match self.find_position(market_id, user) {
            Some(i) => i,
            None => {
                return Err(LedgerError::NotFound);
            },
        };
        proof {
            self.lemma_position_index_agrees(pi as int, market_id, user);
        }
        let recomputed = crate::commitment::compute_commitment(secret, claimed_side);
        let is_winner = self.markets[mi].status == MarketStatus::Resolved
            && !self.positions[pi].claimed && crate::commitment::bytes32_eq(
            &recomputed,
            &self.positions[pi].commitment,
        ) && (match self.markets[mi].outcome {
            Some(o) => o == claimed_side,
            None => false,
        });
        if is_winner {
            let amt = self.positions[pi].amount;
            let side_pool = if claimed_side {
                self.markets[mi].total_yes_pool
            } else {
                self.markets[mi].total_no_pool
            };
            proof {
                lemma_unclaimed_fits(self.positions@, pi as int, market_id);
                lemma_sums_bounds(self.positions@, market_id);
                assert(self.markets@[mi as int].total_pool == stake_sum(
                    self.positions@,
                    market_id,
                ));
                assert(self.markets@[mi as int].total_yes_pool + self.markets@[
                    mi as int
                ].total_no_pool == claimed_stake_sum(self.positions@, market_id));
            }
            let winning = side_pool + amt;
            let losing = if self.markets[mi].total_pool >= winning {
                self.markets[mi].total_pool - winning
            } else {
                0
            };
            if amt.checked_mul(losing).is_none() {
                return Err(LedgerError::Overflow);
            }
        }
        let vault_bal = self.vaults[mi].balance;
        let ghost old_positions = self.positions@;
        let m = &mut self.markets[mi];
        let p = &mut self.positions[pi];
        match claim_winnings::handler(m, p, vault_bal, secret, claimed_side) {
            Ok(payout) => {
                let v = &mut self.vaults[mi];
                v.balance = v.balance - payout;
                proof {
                    let ps = self.positions@;
                    let ms = self.markets@;
                    assert forall|k: int| 0 <= k < ms.len() implies {
                        &&& (#[trigger] ms[k]).total_pool == stake_sum(ps, ms[k].market_id)
                        &&& ms[k].total_yes_pool + ms[k].total_no_pool == claimed_stake_sum(
                            ps,
                            ms[k].market_id,
                        )
                    } by {
                        lemma_sums_update(
                            old_positions,
                            pi as int,
                            ps[pi as int],
                            ms[k].market_id,
                        );
                        if k != mi as int {
                            assert(ms[k] == old(self).markets@[k]);
                            assert(ms[k].market_id != market_id);
                        }
                    }
                    assert forall|j: int|
                        0 <= j < ps.len() implies self.has_market(
                        (#[trigger] ps[j]).market,
                    ) by {
                        let w = choose|w: int|
                            0 <= w < old(self).markets@.len() && (#[trigger] old(
                                self,
                            ).markets@[w]).market_id == old(self).positions@[j].market;
                        assert(old(self).has_market(old(self).positions@[j].market));
                        assert(self.markets@[w].market_id == ps[j].market);
                    }
                }
                Ok(payout)
            },
            Err(e) => {
                proof {
                    assert(self.markets@ =~= old(self).markets@);
                    assert(self.positions@ =~= old(self).positions@);
                }
                Err(LedgerError::Market(e))
            },
        }
    }

    /// Read one market.
    pub fn market(&self, market_id: u64) -> (r: Option<&Market>)
        requires
            self.wf(),
        ensures
            match r {
                Some(m) => self.has_market(market_id) && *m == self.market_at(market_id),
                None => !self.has_market(market_id),
            },
    {
        match self.find_market(market_id) {
            Some(i) => {
                proof {
                    self.lemma_market_index_agrees(i as int, market_id);
                }
                Some(&self.markets[i])
            },
            None => None,
        }
    }

    /// Read one bettor's position on one market.
    pub fn position(&self, market_id: u64, user: u64) -> (r: Option<&UserPosition>)
        requires
            self.wf(),
        ensures
            match r {
                Some(p) => self.has_position(market_id, user) && *p == self.position_at(
                    market_id,
                    user,
                ),
                None => !self.has_position(market_id, user),
            },
    {
        match self.find_position(market_id, user) {
            Some(i) => {
                proof {
                    self.lemma_position_index_agrees(i as int, market_id, user);
                }
                Some(&self.positions[i])
            },
            None => None,
        }
    }

    /// Read one market's escrow balance.
    pub fn vault_balance(&self, market_id: u64) -> (r: Option<u64>)
        requires
            self.wf(),
        ensures
            match r {
                Some(b) => self.has_market(market_id) && b == self.vault_at(market_id).balance,
                None => !self.has_market(market_id),
            },
    {
        match self.find_market(market_id) {
            Some(i) => {
                proof {
                    self.lemma_market_index_agrees(i as int, market_id);
                }
                Some(self.vaults[i].balance)
            },
            None => None,
        }
    }
}

/// While a market is open — indeed at any point in its life — its recorded
/// total pool is exactly the sum of the stakes of all positions placed on
/// it: no stake is lost and none is counted twice.
pub proof fn lemma_total_pool_is_stake_sum(l: Ledger, market_id: u64)
    requires
        l.wf(),
        l.has_market(market_id),
    ensures
        l.market_at(market_id).total_pool == stake_sum(l.positions@, market_id),
{
    let i = l.market_index(market_id);
    assert(0 <= i < l.markets@.len() && l.markets@[i].market_id == market_id);
}

/// The two discovered side pools together never overrun the total pool:
/// they hold exactly the stakes of the positions revealed so far, which
/// are a subset of all positions.
pub proof fn lemma_discovered_pools_bounded(l: Ledger, market_id: u64)
    requires
        l.wf(),
        l.has_market(market_id),
    ensures
        l.market_at(market_id).total_yes_pool + l.market_at(market_id).total_no_pool
            <= l.market_at(market_id).total_pool,
{
    let i = l.market_index(market_id);
    assert(0 <= i < l.markets@.len() && l.markets@[i].market_id == market_id);
    lemma_sums_bounds(l.positions@, market_id);
}

} // verus!

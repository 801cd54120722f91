use vstd::prelude::*;

verus! {

/// Lifecycle of a market: it starts `Open`, is flipped once to `Resolved`,
/// and no other transition exists.
#[derive(Clone, Copy, Debug, PartialEq, Eq, Structural)]
pub enum MarketStatus {
    Open,
    Resolved,
}

/// The number of bytes of a question text in its UTF-8 encoding, which is
/// what the 200-byte bound of market creation is measured in.
pub open spec fn question_byte_len(q: Seq<char>) -> nat {
    vstd::utf8::encode_utf8(q).len()
}

/// Longest question text accepted at market creation, in UTF-8 bytes.
pub const MAX_QUESTION_LEN: usize = 200;

/// One prediction market. `total_pool` grows with every bet; the yes/no
/// pools stay zero while the market is open (the side of each bet is hidden
/// behind a commitment) and fill up lazily as winners reveal and claim.
pub struct Market {
    pub market_id: u64,
    pub creator: u64,
    pub question: String,
    pub deadline: i64,
    pub status: MarketStatus,
    pub outcome: Option<bool>,
    pub total_pool: u64,
    pub total_yes_pool: u64,
    pub total_no_pool: u64,
    pub created_at: i64,
}

impl Market {
    /// Structural well-formedness of a single market record: the outcome is
    /// recorded exactly when the market is resolved, and the question kept
    /// the bound it was checked against at creation.
    pub open spec fn wf(self) -> bool {
        &&& (self.status == MarketStatus::Open <==> self.outcome is None)
        &&& question_byte_len(self.question@) <= MAX_QUESTION_LEN
    }

    /// The side pool that claims of `side` feed into.
    pub open spec fn side_pool(self, side: bool) -> u64 {
        if side {
            self.total_yes_pool
        } else {
            self.total_no_pool
        }
    }
}

} // verus!

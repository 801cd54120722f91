use vstd::prelude::*;

verus! {

/// One bettor's stake on one market. The chosen side is not stored: only
/// the 32-byte commitment digest is, and the side becomes known when the
/// bettor reveals the preimage at claim time.
#[derive(Clone, Copy, Debug)]
pub struct UserPosition {
    pub user: u64,
    pub market: u64,
    pub commitment: [u8; 32],
    pub amount: u64,
    pub claimed: bool,
    pub created_at: i64,
}

impl UserPosition {
    /// A position is only ever created with a positive stake.
    pub open spec fn wf(self) -> bool {
        self.amount > 0
    }
}

} // verus!

use vstd::prelude::*;

verus! {

/// A rejected precondition of one of the engine's operations. Every check is
/// made before any mutation, so an error always means "nothing changed".
#[derive(Clone, Copy, Debug, PartialEq, Eq, Structural)]
pub enum MarketError {
    /// The caller is not the administrative authority.
    Unauthorized,
    /// The market is not open for betting.
    MarketNotOpen,
    /// The market has not been resolved yet.
    MarketNotResolved,
    /// The betting deadline has already passed.
    DeadlinePassed,
    /// The deadline has not passed yet, so the market cannot be resolved.
    DeadlineNotPassed,
    /// The market is already resolved.
    MarketAlreadyResolved,
    /// The bet amount must be greater than zero.
    InvalidAmount,
    /// The question exceeds 200 bytes.
    QuestionTooLong,
    /// This position has already been claimed.
    AlreadyClaimed,
    /// Commitment verification failed: wrong secret or side.
    InvalidCommitment,
    /// The revealed side is not the winning outcome.
    NotAWinner,
    /// The winning pool is zero.
    ZeroWinningPool,
    /// The vault does not hold enough balance for the payout.
    InsufficientVaultBalance,
}

/// A failure of the keyed record store around the engine, as opposed to a
/// failure of an engine precondition. The store gives each record class
/// uniqueness-on-create semantics, and the arithmetic of an operation that
/// would exceed the machine's integer range aborts the whole operation.
#[derive(Clone, Copy, Debug, PartialEq, Eq, Structural)]
pub enum LedgerError {
    /// The engine itself rejected the operation.
    Market(MarketError),
    /// A record with the same key already exists.
    AlreadyExists,
    /// No record with the given key exists.
    NotFound,
    /// The authority singleton has not been created yet.
    NotInitialized,
    /// A checked addition or multiplication would exceed the integer range;
    /// the operation aborts with no effect.
    Overflow,
}

} // verus!

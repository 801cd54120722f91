//! A binary-outcome prediction-market settlement engine built on a
//! commit-reveal scheme: bettors commit to a hidden choice, an authority
//! resolves the outcome after a deadline, and winners reveal their choice
//! to claim a pari-mutuel payout from the market's escrow vault.
//!
//! Known semantic gap, kept deliberately: the winning and losing pools are
//! discovered lazily, one reveal at a time, so a winner's payout depends on
//! the order in which winners claim — the first claimant divides the whole
//! undiscovered remainder of the pool among the winners known so far, and a
//! later winner can find the vault short. Bettors on the losing side have
//! no incentive to reveal at all, so their stake stays in escrow for good.

pub mod commitment;
pub mod config;
pub mod errors;
pub mod instructions;
pub mod ledger;
pub mod market;
pub mod position;
pub mod sums;

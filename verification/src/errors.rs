use vstd::prelude::*;

verus! {

/// Every way a contract call can be refused.
#[derive(Clone, Copy, Debug, PartialEq, Eq, PartialOrd, Ord, Structural)]
pub enum Error {
    /// Market ID was not found in storage.
    MarketNotFound,
    /// Market is not open for staking (past deadline or already settled).
    MarketClosed,
    /// Market has not been resolved or invalidated yet.
    MarketNotResolved,
    /// Outcome value is not a recognized enum variant.
    InvalidOutcome,
    /// Caller is not the designated resolver for this market.
    UnauthorizedResolver,
    /// Market has already been resolved or invalidated.
    AlreadyResolved,
    /// Position has already been claimed or refunded.
    AlreadyClaimed,
    /// Caller has no winning stake for the resolved outcome.
    NotWinner,
    /// Position is not eligible for a refund.
    NotRefundable,
    /// Amount must be strictly positive.
    InvalidAmount,
    /// Close time has not been reached yet.
    DeadlineNotReached,
    /// Resolution timeout has not elapsed; invalidation is not yet allowed.
    ResolutionTimeoutNotReached,
    /// Side must be Yes or No.
    InvalidSide,
    /// Market configuration is logically invalid.
    InvalidMarketConfig,
    /// Question string is empty or exceeds the maximum length.
    InvalidQuestion,
    /// Arithmetic overflow during payout or pool accounting.
    Overflow,
    /// No position exists for this user on this market.
    NoPosition,
    /// Market still has an open staking window; resolution is not allowed yet.
    MarketStillOpen,
}

} // verus!

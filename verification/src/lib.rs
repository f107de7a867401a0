//! Binary YES/NO prediction markets: the rules that create markets, take
//! stakes, finalize outcomes and settle claims, with the payout arithmetic.
//! Ledger storage, authorization, token transfers and events are left to the
//! host that runs the contract; each entry point here takes what the host
//! read and returns what it has to write and pay.

pub mod contract;
pub mod errors;
pub mod events;
pub mod guarantees;
pub mod laws;
pub mod payout;
pub mod types;

pub use contract::{ResolveContract, FIRST_MARKET_ID};
pub use errors::Error;
pub use events::ClaimKind;
pub use payout::{claimable_amount, payout_division_overflows_for, settlement_for, Settlement};
pub use types::{
    Market, MarketOutcome, MarketStatus, Outcome, Position, Side, MAX_DESCRIPTION_LEN,
    MAX_QUESTION_LEN, MAX_RESOLUTION_TIMEOUT_SECS, MIN_MARKET_DURATION_SECS,
    MIN_RESOLUTION_TIMEOUT_SECS,
};

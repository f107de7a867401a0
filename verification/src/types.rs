use vstd::prelude::*;

use crate::errors::Error;

verus! {

/// Maximum question length in bytes (UTF-8).
pub const MAX_QUESTION_LEN: u32 = 256;

/// Maximum description length in bytes (UTF-8).
pub const MAX_DESCRIPTION_LEN: u32 = 1024;

/// Minimum staking window: close_at must be at least this many seconds after creation.
pub const MIN_MARKET_DURATION_SECS: u64 = 60;

/// Maximum resolution timeout after close (365 days).
pub const MAX_RESOLUTION_TIMEOUT_SECS: u64 = 365 * 24 * 60 * 60;

/// Minimum resolution timeout after close (1 hour) so resolvers have a window
/// before permissionless invalidation is available.
pub const MIN_RESOLUTION_TIMEOUT_SECS: u64 = 3600;

/// Whether an integer is representable as an `i128`.
pub open spec fn fits_i128(x: int) -> bool {
    i128::MIN <= x <= i128::MAX
}

/// On-chain market status. "Closed for staking" is derived from `close_at`
/// while status remains `Open`.
#[derive(Clone, Copy, Debug, PartialEq, Eq, Structural)]
pub enum MarketStatus {
    Open,
    Resolved,
    Invalid,
}

/// Stake side. Resolve outcome reuses Yes/No; Invalid is only for resolution/invalidation.
#[derive(Clone, Copy, Debug, PartialEq, Eq, Structural)]
pub enum Side {
    Yes,
    No,
}

/// Final market outcome as stored with the market.
#[derive(Clone, Copy, Debug, PartialEq, Eq, Structural)]
pub enum MarketOutcome {
    /// Not yet finalized.
    Unset,
    Yes,
    No,
    Invalid,
}

/// Argument / event outcome (never Unset).
#[derive(Clone, Copy, Debug, PartialEq, Eq, Structural)]
pub enum Outcome {
    Yes,
    No,
    /// Explicit invalid resolution by the designated resolver (before timeout).
    Invalid,
}

impl MarketOutcome {
    /// The stored outcome that records a resolver's `outcome`.
    pub open spec fn recording(outcome: Outcome) -> MarketOutcome {
        match outcome {
            Outcome::Yes => MarketOutcome::Yes,
            Outcome::No => MarketOutcome::No,
            Outcome::Invalid => MarketOutcome::Invalid,
        }
    }

    /// The outcome a stored value records, if it records one.
    pub open spec fn recorded(self) -> Option<Outcome> {
        match self {
            MarketOutcome::Unset => None,
            MarketOutcome::Yes => Some(Outcome::Yes),
            MarketOutcome::No => Some(Outcome::No),
            MarketOutcome::Invalid => Some(Outcome::Invalid),
        }
    }

    pub fn from_resolve(outcome: Outcome) -> (r: Self)
        ensures
            r == MarketOutcome::recording(outcome),
    {
        match outcome {
            Outcome::Yes => MarketOutcome::Yes,
            Outcome::No => MarketOutcome::No,
            Outcome::Invalid => MarketOutcome::Invalid,
        }
    }

    pub fn as_outcome(&self) -> (r: Option<Outcome>)
        ensures
            r == self.recorded(),
    {
        match self {
            MarketOutcome::Unset => None,
            MarketOutcome::Yes => Some(Outcome::Yes),
            MarketOutcome::No => Some(Outcome::No),
            MarketOutcome::Invalid => Some(Outcome::Invalid),
        }
    }
}

/// Recording an outcome and reading it back gives the same outcome; every
/// stored value other than `Unset` is the record of exactly one outcome.
pub proof fn lemma_outcome_round_trip(outcome: Outcome, stored: MarketOutcome)
    ensures
        MarketOutcome::recording(outcome).recorded() == Some(outcome),
        stored != MarketOutcome::Unset ==> MarketOutcome::recording(stored.recorded().unwrap())
            == stored,
        stored == MarketOutcome::Unset <==> stored.recorded() is None,
{
}

/// A participant's deposits on one market.
#[derive(Clone, Copy, Debug, PartialEq, Eq, Structural)]
pub struct Position {
    pub yes_amount: i128,
    pub no_amount: i128,
    pub claimed: bool,
}

impl Position {
    /// Everything deposited on both sides, as a mathematical integer.
    pub open spec fn deposited(self) -> int {
        self.yes_amount + self.no_amount
    }

    /// The amount staked on `side`.
    pub open spec fn stake_on(self, side: Side) -> i128 {
        match side {
            Side::Yes => self.yes_amount,
            Side::No => self.no_amount,
        }
    }

    /// Neither side holds a stake.
    pub open spec fn holds_nothing(self) -> bool {
        self.yes_amount == 0 && self.no_amount == 0
    }

    /// The total of both sides, or `Overflow` where it does not fit an `i128`.
    pub open spec fn checked_total(self) -> Result<i128, Error> {
        if fits_i128(self.deposited()) {
            Ok(self.deposited() as i128)
        } else {
            Err(Error::Overflow)
        }
    }

    /// The position after `amount` more is staked on `side`.
    pub open spec fn with_deposit(self, side: Side, amount: int) -> Position {
        match side {
            Side::Yes => Position { yes_amount: (self.yes_amount + amount) as i128, ..self },
            Side::No => Position { no_amount: (self.no_amount + amount) as i128, ..self },
        }
    }

    pub fn empty() -> (r: Self)
        ensures
            r == (Position { yes_amount: 0, no_amount: 0, claimed: false }),
    {
        Self { yes_amount: 0, no_amount: 0, claimed: false }
    }

    pub fn total(&self) -> (r: Result<i128, Error>)
        ensures
            r == self.checked_total(),
    {
        match self.yes_amount.checked_add(self.no_amount) {
            Some(t) => Ok(t),
            None => Err(Error::Overflow),
        }
    }

    pub fn is_empty(&self) -> (r: bool)
        ensures
            r == self.holds_nothing(),
    {
        self.yes_amount == 0 && self.no_amount == 0
    }
}

/// A binary market. `Addr` stands for the account addresses it names and
/// `Text` for its question and description; the market's rules never look
/// inside either, they only carry them.
#[derive(Clone, Debug)]
pub struct Market<Addr, Text> {
    pub id: u64,
    pub creator: Addr,
    pub resolver: Addr,
    pub question: Text,
    pub description: Text,
    /// Token contract used for deposits and payouts.
    pub token: Addr,
    pub created_at: u64,
    /// Unix timestamp after which staking is rejected.
    pub close_at: u64,
    /// Seconds after `close_at` before anyone may call `invalidate`.
    pub resolution_timeout: u64,
    pub yes_pool: i128,
    pub no_pool: i128,
    pub status: MarketStatus,
    /// `Unset` until resolved or invalidated.
    pub outcome: MarketOutcome,
    /// 0 means not finalized yet.
    pub finalized_at: u64,
}

impl<Addr, Text> Market<Addr, Text> {
    /// The pool of `side`.
    pub open spec fn pool_of(self, side: Side) -> i128 {
        match side {
            Side::Yes => self.yes_pool,
            Side::No => self.no_pool,
        }
    }

    /// Both pools together, as a mathematical integer.
    pub open spec fn total_pool(self) -> int {
        self.yes_pool + self.no_pool
    }

    /// The market after `amount` more is staked on `side`.
    pub open spec fn with_deposit(self, side: Side, amount: int) -> Market<Addr, Text> {
        match side {
            Side::Yes => Market { yes_pool: (self.yes_pool + amount) as i128, ..self },
            Side::No => Market { no_pool: (self.no_pool + amount) as i128, ..self },
        }
    }

    /// Staking is allowed: the market is still open and its deadline lies
    /// ahead of `now`.
    pub open spec fn open_for_staking(self, now: u64) -> bool {
        self.status == MarketStatus::Open && now < self.close_at
    }

    /// The state every market the contract creates is in, and stays in:
    /// no pool is negative, and the stored outcome agrees with the status
    /// (unset exactly while open, `Invalid` for an invalidated market, and
    /// YES or NO for a resolved one).
    pub open spec fn is_well_formed(self) -> bool {
        &&& self.yes_pool >= 0
        &&& self.no_pool >= 0
        &&& (self.status == MarketStatus::Open) == (self.outcome == MarketOutcome::Unset)
        &&& self.status == MarketStatus::Invalid ==> self.outcome == MarketOutcome::Invalid
        &&& self.status == MarketStatus::Resolved ==> (self.outcome == MarketOutcome::Yes
            || self.outcome == MarketOutcome::No)
    }
}

} // verus!

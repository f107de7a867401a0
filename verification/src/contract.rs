use vstd::prelude::*;

use crate::errors::Error;
use crate::events::ClaimKind;
use crate::payout::{
    claimable_amount, claimable_of, payout_division_overflows, settlement_for, settlement_of,
    Settlement,
};
use crate::types::{
    Market, MarketOutcome, MarketStatus, Outcome, Position, Side, MAX_DESCRIPTION_LEN,
    MAX_QUESTION_LEN, MAX_RESOLUTION_TIMEOUT_SECS, MIN_MARKET_DURATION_SECS,
    MIN_RESOLUTION_TIMEOUT_SECS, fits_i128,
};

verus! {

/// The id the market counter starts from when nothing is stored yet.
pub const FIRST_MARKET_ID: u64 = 1;

/// The contract's rules. Each entry point takes the records that the host
/// read from ledger storage for the call (the market, the caller's position,
/// the id counter), the ledger time, and the caller's arguments; it returns
/// the records to write back. The host authorizes callers, moves tokens and
/// publishes events around these calls.
pub struct ResolveContract;

/// Why `create_market` refuses a request, checked in this order, or `None`
/// when it accepts it. `close_at` must lie at least `MIN_MARKET_DURATION_SECS`
/// after `now`; when `now` is so late that no `u64` time does, every request
/// is refused.
pub open spec fn creation_refusal(
    next_id: u64,
    now: u64,
    question_len: u32,
    description_len: u32,
    close_at: u64,
    resolution_timeout: u64,
) -> Option<Error> {
    if question_len == 0 || question_len > MAX_QUESTION_LEN {
        Some(Error::InvalidQuestion)
    } else if description_len > MAX_DESCRIPTION_LEN {
        Some(Error::InvalidMarketConfig)
    } else if close_at < now + MIN_MARKET_DURATION_SECS {
        Some(Error::InvalidMarketConfig)
    } else if resolution_timeout < MIN_RESOLUTION_TIMEOUT_SECS || resolution_timeout
        > MAX_RESOLUTION_TIMEOUT_SECS {
        Some(Error::InvalidMarketConfig)
    } else if next_id == u64::MAX {
        Some(Error::Overflow)
    } else {
        None
    }
}

/// A freshly created market: open, empty pools, no outcome.
pub open spec fn fresh_market<Addr, Text>(
    id: u64,
    now: u64,
    creator: Addr,
    resolver: Addr,
    question: Text,
    description: Text,
    token: Addr,
    close_at: u64,
    resolution_timeout: u64,
) -> Market<Addr, Text> {
    Market {
        id,
        creator,
        resolver,
        question,
        description,
        token,
        created_at: now,
        close_at,
        resolution_timeout,
        yes_pool: 0,
        no_pool: 0,
        status: MarketStatus::Open,
        outcome: MarketOutcome::Unset,
        finalized_at: 0,
    }
}

/// The result of staking `amount` on `side`: refusals in the order the
/// contract checks them, else the market and position with the deposit added.
pub open spec fn stake_result<Addr, Text>(
    market: Option<Market<Addr, Text>>,
    position: Position,
    now: u64,
    side: Side,
    amount: i128,
) -> Result<(Market<Addr, Text>, Position), Error> {
    if amount <= 0 {
        Err(Error::InvalidAmount)
    } else {
        match market {
            None => Err(Error::MarketNotFound),
            Some(m) => if !m.open_for_staking(now) {
                Err(Error::MarketClosed)
            } else if !fits_i128(m.pool_of(side) + amount) {
                Err(Error::Overflow)
            } else if position.claimed {
                Err(Error::AlreadyClaimed)
            } else if !fits_i128(position.stake_on(side) + amount) {
                Err(Error::Overflow)
            } else {
                Ok((m.with_deposit(side, amount as int), position.with_deposit(side, amount as int)))
            },
        }
    }
}

/// The market after the resolver declares `outcome` at time `now`.
pub open spec fn resolved_market<Addr, Text>(
    m: Market<Addr, Text>,
    now: u64,
    outcome: Outcome,
) -> Market<Addr, Text> {
    if outcome == Outcome::Invalid {
        Market {
            status: MarketStatus::Invalid,
            outcome: MarketOutcome::Invalid,
            finalized_at: now,
            ..m
        }
    } else {
        Market {
            status: MarketStatus::Resolved,
            outcome: MarketOutcome::recording(outcome),
            finalized_at: now,
            ..m
        }
    }
}

/// The result of resolving: only an existing, still open market whose
/// deadline has passed can be resolved.
pub open spec fn resolve_result<Addr, Text>(
    market: Option<Market<Addr, Text>>,
    now: u64,
    outcome: Outcome,
) -> Result<Market<Addr, Text>, Error> {
    match market {
        None => Err(Error::MarketNotFound),
        Some(m) => if m.status != MarketStatus::Open {
            Err(Error::AlreadyResolved)
        } else if now < m.close_at {
            Err(Error::MarketStillOpen)
        } else {
            Ok(resolved_market(m, now, outcome))
        },
    }
}

/// The result of invalidating: only an existing, still open market whose
/// deadline and resolution timeout have both passed can be invalidated.
pub open spec fn invalidate_result<Addr, Text>(market: Option<Market<Addr, Text>>, now: u64) -> Result<
    Market<Addr, Text>,
    Error,
> {
    match market {
        None => Err(Error::MarketNotFound),
        Some(m) => if m.status != MarketStatus::Open {
            Err(Error::AlreadyResolved)
        } else if now < m.close_at {
            Err(Error::DeadlineNotReached)
        } else if m.close_at + m.resolution_timeout > u64::MAX {
            Err(Error::Overflow)
        } else if now < m.close_at + m.resolution_timeout {
            Err(Error::ResolutionTimeoutNotReached)
        } else {
            Ok(
                Market {
                    status: MarketStatus::Invalid,
                    outcome: MarketOutcome::Invalid,
                    finalized_at: now,
                    ..m
                },
            )
        },
    }
}

/// How a claim under `settlement` is reported.
pub open spec fn claim_kind_for(settlement: Settlement) -> ClaimKind {
    match settlement {
        Settlement::Refund => ClaimKind::Refund,
        Settlement::Payout { .. } => ClaimKind::Payout,
    }
}

/// The result of a claim: the position marked claimed, the amount to pay
/// out, and how it was settled.
pub open spec fn claim_result<Addr, Text>(market: Option<Market<Addr, Text>>, position: Position) -> Result<
    (Position, i128, ClaimKind),
    Error,
> {
    match market {
        None => Err(Error::MarketNotFound),
        Some(m) => match claimable_of(m, position) {
            Err(e) => Err(e),
            Ok(amount) => match settlement_of(m) {
                Err(e) => Err(e),
                Ok(settlement) => Ok(
                    (Position { claimed: true, ..position }, amount, claim_kind_for(settlement)),
                ),
            },
        },
    }
}

/// What the views report for a stored market.
pub open spec fn market_view<Addr, Text>(stored: Option<Market<Addr, Text>>) -> Result<
    Market<Addr, Text>,
    Error,
> {
    match stored {
        Some(m) => Ok(m),
        None => Err(Error::MarketNotFound),
    }
}

/// A stored position, or an empty one where none is stored.
pub open spec fn position_view(stored: Option<Position>) -> Position {
    match stored {
        Some(p) => p,
        None => Position { yes_amount: 0, no_amount: 0, claimed: false },
    }
}

/// Computing the claim of `position` on the stored market, if any, does not
/// divide `i128::MIN` by `-1`.
pub open spec fn claim_computable<Addr, Text>(
    market: Option<Market<Addr, Text>>,
    position: Position,
) -> bool {
    market matches Some(m) ==> !payout_division_overflows(m, position)
}

/// Whose authorization a resolution needs: the resolver of an existing
/// market that is still open. Resolving a missing or finalized market is
/// refused before anyone is asked.
pub open spec fn resolution_authorizer_of<Addr, Text>(market: Option<Market<Addr, Text>>) -> Result<
    Addr,
    Error,
> {
    match market {
        None => Err(Error::MarketNotFound),
        Some(m) => if m.status != MarketStatus::Open {
            Err(Error::AlreadyResolved)
        } else {
            Ok(m.resolver)
        },
    }
}

/// Refuses a market that is no longer open: resolution and invalidation
/// both start from this check.
fn ensure_unfinalized<Addr, Text>(market: &Market<Addr, Text>) -> (r: Result<(), Error>)
    ensures
        r == (if market.status == MarketStatus::Open {
            Ok(())
        } else {
            Err(Error::AlreadyResolved)
        }),
{
    match market.status {
        MarketStatus::Open => Ok(()),
        _ => Err(Error::AlreadyResolved),
    }
}

fn ensure_open_for_staking<Addr, Text>(market: &Market<Addr, Text>, now: u64) -> (r: Result<
    (),
    Error,
>)
    ensures
        r == (if market.open_for_staking(now) {
            Ok(())
        } else {
            Err(Error::MarketClosed)
        }),
{
    match market.status {
        MarketStatus::Open => {},
        _ => return Err(Error::MarketClosed),
    }
    if now >= market.close_at {
        return Err(Error::MarketClosed);
    }
    Ok(())
}

impl ResolveContract {
    /// The address that must authorize resolving the stored `market`: its
    /// resolver, once the market is known to exist and to be still open.
    pub fn resolution_authorizer<Addr, Text>(market: &Option<Market<Addr, Text>>) -> (r: Result<
        &Addr,
        Error,
    >)
        ensures
            match r {
                Ok(a) => resolution_authorizer_of(*market) == Ok::<Addr, Error>(*a),
                Err(e) => resolution_authorizer_of(*market) == Err::<Addr, Error>(e),
            },
    {
        match market {
            None => Err(Error::MarketNotFound),
            Some(m) => match ensure_unfinalized(m) {
                Ok(()) => Ok(&m.resolver),
                Err(e) => Err(e),
            },
        }
    }

    /// Create a binary prediction market with id `next_id`, returning it and
    /// the counter's next value. `question_len` and `description_len` are the
    /// byte lengths of `question` and `description`.
    ///
    /// - the question must be 1..=`MAX_QUESTION_LEN` bytes, the description at
    ///   most `MAX_DESCRIPTION_LEN`;
    /// - `close_at` must be at least `MIN_MARKET_DURATION_SECS` after now;
    /// - `resolution_timeout` must be in
    ///   `[MIN_RESOLUTION_TIMEOUT_SECS, MAX_RESOLUTION_TIMEOUT_SECS]`.
    pub fn create_market<Addr, Text>(
        next_id: u64,
        now: u64,
        creator: Addr,
        resolver: Addr,
        question: Text,
        question_len: u32,
        description: Text,
        description_len: u32,
        token: Addr,
        close_at: u64,
        resolution_timeout: u64,
    ) -> (r: Result<(Market<Addr, Text>, u64), Error>)
        ensures
            r == (match creation_refusal(
                next_id,
                now,
                question_len,
                description_len,
                close_at,
                resolution_timeout,
            ) {
                Some(e) => Err(e),
                None => Ok(
                    (
                        fresh_market(
                            next_id,
                            now,
                            creator,
                            resolver,
                            question,
                            description,
                            token,
                            close_at,
                            resolution_timeout,
                        ),
                        (next_id + 1) as u64,
                    ),
                ),
            }),
    {
        if question_len == 0 || question_len > MAX_QUESTION_LEN {
            return Err(Error::InvalidQuestion);
        }
        if description_len > MAX_DESCRIPTION_LEN {
            return Err(Error::InvalidMarketConfig);
        }
        match now.checked_add(MIN_MARKET_DURATION_SECS) {
            Some(earliest) => {
                if close_at < earliest {
                    return Err(Error::InvalidMarketConfig);
                }
            },
            None => return Err(Error::InvalidMarketConfig),
        }
        if resolution_timeout < MIN_RESOLUTION_TIMEOUT_SECS || resolution_timeout
            > MAX_RESOLUTION_TIMEOUT_SECS {
            return Err(Error::InvalidMarketConfig);
        }
        let next = match next_id.checked_add(1) {
            Some(n) => n,
            None => return Err(Error::Overflow),
        };
        let market = Market {
            id: next_id,
            creator,
            resolver,
            question,
            description,
            token,
            created_at: now,
            close_at,
            resolution_timeout,
            yes_pool: 0,
            no_pool: 0,
            status: MarketStatus::Open,
            outcome: MarketOutcome::Unset,
            finalized_at: 0,
        };
        Ok((market, next))
    }

    /// Stake `amount` on `side`. `market` is the stored market (if any) and
    /// `position` the caller's position on it. On success the host saves both
    /// returned records and transfers `amount` of the market's token from the
    /// caller to the contract. A participant may stake on both sides; each is
    /// tracked on its own.
    pub fn stake<Addr, Text>(
        market: Option<Market<Addr, Text>>,
        position: Position,
        now: u64,
        side: Side,
        amount: i128,
    ) -> (r: Result<(Market<Addr, Text>, Position), Error>)
        ensures
            r == stake_result(market, position, now, side, amount),
    {
        if amount <= 0 {
            return Err(Error::InvalidAmount);
        }
        let mut market = match market {
            Some(m) => m,
            None => return Err(Error::MarketNotFound),
        };
        match ensure_open_for_staking(&market, now) {
            Ok(()) => {},
            Err(e) => return Err(e),
        }
        match side {
            Side::Yes => {
                market.yes_pool = match market.yes_pool.checked_add(amount) {
                    Some(p) => p,
                    None => return Err(Error::Overflow),
                };
            },
            Side::No => {
                market.no_pool = match market.no_pool.checked_add(amount) {
                    Some(p) => p,
                    None => return Err(Error::Overflow),
                };
            },
        }
        let mut position = position;
        if position.claimed {
            return Err(Error::AlreadyClaimed);
        }
        match side {
            Side::Yes => {
                position.yes_amount = match position.yes_amount.checked_add(amount) {
                    Some(a) => a,
                    None => return Err(Error::Overflow),
                };
            },
            Side::No => {
                position.no_amount = match position.no_amount.checked_add(amount) {
                    Some(a) => a,
                    None => return Err(Error::Overflow),
                };
            },
        }
        Ok((market, position))
    }

    /// Resolve a closed market with `outcome` (YES, NO, or resolver-declared
    /// invalid). The host has the address named by `resolution_authorizer`
    /// authorize the call, and saves the returned market.
    pub fn resolve<Addr, Text>(market: Option<Market<Addr, Text>>, now: u64, outcome: Outcome) -> (r:
        Result<Market<Addr, Text>, Error>)
        ensures
            r == resolve_result(market, now, outcome),
    {
        let mut market = match market {
            Some(m) => m,
            None => return Err(Error::MarketNotFound),
        };
        match ensure_unfinalized(&market) {
            Ok(()) => {},
            Err(e) => return Err(e),
        }
        if now < market.close_at {
            return Err(Error::MarketStillOpen);
        }
        match outcome {
            Outcome::Invalid => {
                market.status = MarketStatus::Invalid;
                market.outcome = MarketOutcome::Invalid;
            },
            _ => {
                market.status = MarketStatus::Resolved;
                market.outcome = MarketOutcome::from_resolve(outcome);
            },
        }
        market.finalized_at = now;
        Ok(market)
    }

    /// Permissionless invalidation after `close_at + resolution_timeout`, so
    /// that an unresolved market cannot trap funds forever. The host saves
    /// the returned market.
    pub fn invalidate<Addr, Text>(market: Option<Market<Addr, Text>>, now: u64) -> (r: Result<
        Market<Addr, Text>,
        Error,
    >)
        ensures
            r == invalidate_result(market, now),
    {
        let mut market = match market {
            Some(m) => m,
            None => return Err(Error::MarketNotFound),
        };
        match ensure_unfinalized(&market) {
            Ok(()) => {},
            Err(e) => return Err(e),
        }
        if now < market.close_at {
            return Err(Error::DeadlineNotReached);
        }
        let invalidate_at = match market.close_at.checked_add(market.resolution_timeout) {
            Some(t) => t,
            None => return Err(Error::Overflow),
        };
        if now < invalidate_at {
            return Err(Error::ResolutionTimeoutNotReached);
        }
        market.status = MarketStatus::Invalid;
        market.outcome = MarketOutcome::Invalid;
        market.finalized_at = now;
        Ok(market)
    }

    /// Claim the payout (winner) or refund (invalid or zero-sided settlement)
    /// of `position`. One claim per position: the returned position is marked
    /// claimed, and the host saves it and transfers the returned amount to the
    /// claimant. A participant with stakes on both sides of a resolved market
    /// is paid for the winning side only; a losing-only position is refused
    /// with `NotWinner`.
    pub fn claim<Addr, Text>(market: Option<Market<Addr, Text>>, position: Position) -> (r: Result<
        (Position, i128, ClaimKind),
        Error,
    >)
        requires
            claim_computable(market, position),
        ensures
            r == claim_result(market, position),
    {
        let market = match market {
            Some(m) => m,
            None => return Err(Error::MarketNotFound),
        };
        let amount = match claimable_amount(&market, &position) {
            Ok(a) => a,
            Err(e) => return Err(e),
        };
        let kind = match settlement_for(&market) {
            Ok(Settlement::Refund) => ClaimKind::Refund,
            Ok(Settlement::Payout { .. }) => ClaimKind::Payout,
            Err(e) => return Err(e),
        };
        let mut position = position;
        position.claimed = true;
        Ok((position, amount, kind))
    }

    /// The stored market, or `MarketNotFound`.
    pub fn get_market<Addr, Text>(stored: Option<Market<Addr, Text>>) -> (r: Result<
        Market<Addr, Text>,
        Error,
    >)
        ensures
            r == market_view(stored),
    {
        match stored {
            Some(m) => Ok(m),
            None => Err(Error::MarketNotFound),
        }
    }

    /// The stored position, or an empty one.
    pub fn get_position(stored: Option<Position>) -> (r: Position)
        ensures
            r == position_view(stored),
    {
        match stored {
            Some(p) => p,
            None => Position::empty(),
        }
    }

    /// Returns the claimable amount if the market is finalized and the
    /// position is eligible.
    pub fn get_claimable<Addr, Text>(market: Option<Market<Addr, Text>>, position: Position) -> (r:
        Result<i128, Error>)
        requires
            claim_computable(market, position),
        ensures
            r == (match market {
                None => Err(Error::MarketNotFound),
                Some(m) => claimable_of(m, position),
            }),
    {
        match market {
            Some(m) => claimable_amount(&m, &position),
            None => Err(Error::MarketNotFound),
        }
    }

    /// The id the next market will get: the stored counter, or
    /// `FIRST_MARKET_ID` before any is stored.
    pub fn next_market_id(stored: Option<u64>) -> (r: u64)
        ensures
            r == (match stored {
                Some(id) => id,
                None => FIRST_MARKET_ID,
            }),
    {
        match stored {
            Some(id) => id,
            None => FIRST_MARKET_ID,
        }
    }
}

} // verus!

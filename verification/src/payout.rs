use vstd::prelude::*;

use vstd::arithmetic::div_mod::{lemma_div_is_ordered_by_denominator, lemma_div_pos_is_pos};

use crate::errors::Error;
use crate::types::{fits_i128, Market, MarketOutcome, MarketStatus, Outcome, Position};

verus! {

/// Settlement mode for a finalized market.
#[derive(Clone, Copy, Debug, PartialEq, Eq, Structural)]
pub enum Settlement {
    /// Winning side divides the full pool. Floor division; dust stays in contract.
    Payout { outcome: Outcome },
    /// Each participant recovers exactly their deposited amounts.
    Refund,
}

/// The settlement rules of a market:
/// - still `Open` (or resolved with no outcome recorded): not settled yet;
/// - `Invalid` status or an `Invalid` outcome: full refund of deposits;
/// - resolved YES with an empty YES pool, or NO with an empty NO pool: refund,
///   since there are no winners;
/// - otherwise the winning side shares the whole pool.
pub open spec fn settlement_of<Addr, Text>(market: Market<Addr, Text>) -> Result<Settlement, Error> {
    match market.status {
        MarketStatus::Open => Err(Error::MarketNotResolved),
        MarketStatus::Invalid => Ok(Settlement::Refund),
        MarketStatus::Resolved => match market.outcome {
            MarketOutcome::Unset => Err(Error::MarketNotResolved),
            MarketOutcome::Invalid => Ok(Settlement::Refund),
            MarketOutcome::Yes => if market.yes_pool == 0 {
                Ok(Settlement::Refund)
            } else {
                Ok(Settlement::Payout { outcome: Outcome::Yes })
            },
            MarketOutcome::No => if market.no_pool == 0 {
                Ok(Settlement::Refund)
            } else {
                Ok(Settlement::Payout { outcome: Outcome::No })
            },
        },
    }
}

/// Integer division as Rust's `/` computes it: the quotient rounded toward
/// zero (the floor when dividend and divisor are both non-negative), for a
/// non-zero divisor.
pub open spec fn div_toward_zero(x: int, d: int) -> int {
    if x == 0 {
        0
    } else if x > 0 && d > 0 {
        x / d
    } else if x < 0 && d < 0 {
        (x * -1) / (d * -1)
    } else if x < 0 {
        ((x * -1) / d) * -1
    } else {
        (x / (d * -1)) * -1
    }
}

/// The stake of `position` on the side that `outcome` names, and that side's pool.
pub open spec fn winning_stake_and_pool<Addr, Text>(
    market: Market<Addr, Text>,
    position: Position,
    outcome: Outcome,
) -> (i128, i128) {
    match outcome {
        Outcome::Yes => (position.yes_amount, market.yes_pool),
        Outcome::No => (position.no_amount, market.no_pool),
        Outcome::Invalid => (0, 0),
    }
}

/// What a position is paid when the side of `outcome` shares the pool:
/// `user_winning_stake * (yes_pool + no_pool) / winning_pool`, rounded toward
/// zero (down, for the non-negative amounts a market holds).
pub open spec fn payout_of<Addr, Text>(
    market: Market<Addr, Text>,
    position: Position,
    outcome: Outcome,
) -> Result<i128, Error> {
    let (user_win, win_pool) = winning_stake_and_pool(market, position, outcome);
    if outcome == Outcome::Invalid {
        Err(Error::InvalidOutcome)
    } else if user_win == 0 {
        Err(Error::NotWinner)
    } else if !fits_i128(market.total_pool()) {
        Err(Error::Overflow)
    } else if !fits_i128(user_win * market.total_pool()) {
        Err(Error::Overflow)
    } else {
        Ok(div_toward_zero(user_win * market.total_pool(), win_pool as int) as i128)
    }
}

/// What `position` may claim from `market`: nothing twice, nothing for an
/// empty position, nothing before settlement; then the deposits back under a
/// refund, or the position's share under a payout.
pub open spec fn claimable_of<Addr, Text>(market: Market<Addr, Text>, position: Position) -> Result<
    i128,
    Error,
> {
    if position.claimed {
        Err(Error::AlreadyClaimed)
    } else if position.holds_nothing() {
        Err(Error::NoPosition)
    } else {
        match settlement_of(market) {
            Err(e) => Err(e),
            Ok(Settlement::Refund) => position.checked_total(),
            Ok(Settlement::Payout { outcome }) => payout_of(market, position, outcome),
        }
    }
}

/// Rounding toward zero keeps a quotient of `i128`s within `i128`, except for
/// `i128::MIN / -1`.
proof fn lemma_div_toward_zero_fits(x: int, d: int)
    requires
        d != 0,
        fits_i128(x),
        !(x == i128::MIN && d == -1),
    ensures
        fits_i128(div_toward_zero(x, d)),
{
    let a = if x < 0 { x * -1 } else { x };
    let b = if d < 0 { d * -1 } else { d };
    lemma_div_pos_is_pos(a, b);
    lemma_div_is_ordered_by_denominator(a, 1, b);
    assert(a / 1 == a);
    if b >= 2 {
        lemma_div_is_ordered_by_denominator(a, 2, b);
    }
}

/// The one input on which computing a claim divides `i128::MIN` by `-1`,
/// which overflows: an unclaimed, non-empty position under a payout whose
/// winning pool is `-1` and whose stake times the whole pool is `i128::MIN`.
/// Pools of a market the contract keeps are never negative, so a stored
/// market never meets it.
pub open spec fn payout_division_overflows<Addr, Text>(
    market: Market<Addr, Text>,
    position: Position,
) -> bool {
    &&& !position.claimed
    &&& !position.holds_nothing()
    &&& settlement_of(market) matches Ok(Settlement::Payout { outcome }) && {
        let (user_win, win_pool) = winning_stake_and_pool(market, position, outcome);
        &&& fits_i128(market.total_pool())
        &&& win_pool == -1
        &&& user_win * market.total_pool() == i128::MIN
    }
}

/// Determine settlement rules for a finalized market.
pub fn settlement_for<Addr, Text>(market: &Market<Addr, Text>) -> (r: Result<Settlement, Error>)
    ensures
        r == settlement_of(*market),
{
    match market.status {
        MarketStatus::Open => Err(Error::MarketNotResolved),
        MarketStatus::Invalid => Ok(Settlement::Refund),
        MarketStatus::Resolved => {
            let outcome = match market.outcome.as_outcome() {
                Some(outcome) => outcome,
                None => return Err(Error::MarketNotResolved),
            };
            match outcome {
                Outcome::Invalid => Ok(Settlement::Refund),
                Outcome::Yes => {
                    if market.yes_pool == 0 {
                        Ok(Settlement::Refund)
                    } else {
                        Ok(Settlement::Payout { outcome: Outcome::Yes })
                    }
                },
                Outcome::No => {
                    if market.no_pool == 0 {
                        Ok(Settlement::Refund)
                    } else {
                        Ok(Settlement::Payout { outcome: Outcome::No })
                    }
                },
            }
        },
    }
}

/// Compute claimable amount for a position under the market's settlement rules.
///
/// Payout: `user_winning_stake * (yes_pool + no_pool) / winning_pool`, rounded
/// toward zero (floored for the non-negative amounts a market holds); the dust
/// from flooring stays in the contract. Refunds return `yes_amount + no_amount`
/// exactly. The one input whose division overflows is excluded.
pub fn claimable_amount<Addr, Text>(market: &Market<Addr, Text>, position: &Position) -> (r: Result<
    i128,
    Error,
>)
    requires
        !payout_division_overflows(*market, *position),
    ensures
        r == claimable_of(*market, *position),
{
    if position.claimed {
        return Err(Error::AlreadyClaimed);
    }
    if position.is_empty() {
        return Err(Error::NoPosition);
    }
    match settlement_for(market) {
        Err(e) => Err(e),
        Ok(Settlement::Refund) => position.total(),
        Ok(Settlement::Payout { outcome }) => {
            let (user_win, win_pool) = match outcome {
                Outcome::Yes => (position.yes_amount, market.yes_pool),
                Outcome::No => (position.no_amount, market.no_pool),
                Outcome::Invalid => return Err(Error::InvalidOutcome),
            };
            if user_win == 0 {
                return Err(Error::NotWinner);
            }
            let total_pool = match market.yes_pool.checked_add(market.no_pool) {
                Some(t) => t,
                None => return Err(Error::Overflow),
            };
            let numerator = match user_win.checked_mul(total_pool) {
                Some(n) => n,
                None => return Err(Error::Overflow),
            };
            proof {
                lemma_div_toward_zero_fits(numerator as int, win_pool as int);
            }
            match numerator.checked_div(win_pool) {
                Some(q) => Ok(q),
                None => Err(Error::Overflow),
            }
        },
    }
}

/// Whether computing the claim of `position` on `market` would divide
/// `i128::MIN` by `-1`; a host tests this before it calls `claim` or
/// `get_claimable` on a market it did not write itself.
pub fn payout_division_overflows_for<Addr, Text>(market: &Market<Addr, Text>, position: &Position) -> (r:
    bool)
    ensures
        r == payout_division_overflows(*market, *position),
{
    if position.claimed || position.is_empty() {
        return false;
    }
    let (user_win, win_pool) = match settlement_for(market) {
        Ok(Settlement::Payout { outcome: Outcome::Yes }) => (position.yes_amount, market.yes_pool),
        Ok(Settlement::Payout { outcome: Outcome::No }) => (position.no_amount, market.no_pool),
        _ => return false,
    };
    let total_pool = match market.yes_pool.checked_add(market.no_pool) {
        Some(t) => t,
        None => return false,
    };
    match user_win.checked_mul(total_pool) {
        Some(n) => win_pool == -1 && n == i128::MIN,
        None => false,
    }
}

} // verus!

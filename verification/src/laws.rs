//! Properties of the contract as a whole: what every operation keeps, and what
//! the settlement pays out over all participants of a market.

use vstd::prelude::*;

use vstd::arithmetic::div_mod::{lemma_div_pos_is_pos, lemma_fundamental_div_mod, lemma_mod_pos_bound};
use vstd::arithmetic::mul::{
    lemma_mul_inequality, lemma_mul_inequality_converse, lemma_mul_is_commutative,
    lemma_mul_is_distributive_add, lemma_mul_nonnegative,
};

use crate::contract::{
    claim_result, creation_refusal, fresh_market, invalidate_result, resolve_result, stake_result,
};
use crate::errors::Error;
use crate::payout::{claimable_of, settlement_of, Settlement};
use crate::types::{fits_i128, Market, MarketStatus, Outcome, Position, Side};

verus! {

/// Everything the positions in `positions` have staked on `side`.
pub open spec fn deposits_on(positions: Seq<Position>, side: Side) -> int
    decreases positions.len(),
{
    if positions.len() == 0 {
        0
    } else {
        deposits_on(positions.drop_last(), side) + positions.last().stake_on(side)
    }
}

/// The amount a claim of `position` would pay now: the claimable amount, or
/// nothing where the claim is refused.
pub open spec fn amount_claimable<Addr, Text>(market: Market<Addr, Text>, position: Position) -> int {
    match claimable_of(market, position) {
        Ok(amount) => amount as int,
        Err(_) => 0,
    }
}

/// What claims of all of `positions` would pay out together.
pub open spec fn total_claimable<Addr, Text>(market: Market<Addr, Text>, positions: Seq<Position>) -> int
    decreases positions.len(),
{
    if positions.len() == 0 {
        0
    } else {
        total_claimable(market, positions.drop_last()) + amount_claimable(market, positions.last())
    }
}

/// Each pool of `market` is exactly what `positions` staked on its side.
pub open spec fn pools_match_deposits<Addr, Text>(
    market: Market<Addr, Text>,
    positions: Seq<Position>,
) -> bool {
    &&& market.yes_pool == deposits_on(positions, Side::Yes)
    &&& market.no_pool == deposits_on(positions, Side::No)
}

/// No position holds a negative stake, as no deposit is ever negative.
pub open spec fn stakes_nonnegative(positions: Seq<Position>) -> bool {
    forall|i: int|
        #![trigger positions[i]]
        0 <= i < positions.len() ==> positions[i].yes_amount >= 0 && positions[i].no_amount >= 0
}

/// The side whose stakes win when `outcome` is declared.
pub open spec fn side_of(outcome: Outcome) -> Side {
    match outcome {
        Outcome::No => Side::No,
        _ => Side::Yes,
    }
}

proof fn lemma_prefix_stakes_nonnegative(positions: Seq<Position>)
    requires
        stakes_nonnegative(positions),
        positions.len() > 0,
    ensures
        stakes_nonnegative(positions.drop_last()),
        positions.last().yes_amount >= 0,
        positions.last().no_amount >= 0,
{
    let rest = positions.drop_last();
    assert forall|i: int| 0 <= i < rest.len() implies #[trigger] rest[i].yes_amount >= 0
        && rest[i].no_amount >= 0 by {
        assert(rest[i] == positions[i]);
    }
    assert(positions.last() == positions[positions.len() - 1]);
}

proof fn lemma_deposits_nonnegative(positions: Seq<Position>, side: Side)
    requires
        stakes_nonnegative(positions),
    ensures
        deposits_on(positions, side) >= 0,
    decreases positions.len(),
{
    if positions.len() > 0 {
        let rest = positions.drop_last();
        lemma_prefix_stakes_nonnegative(positions);
        lemma_deposits_nonnegative(rest, side);
        assert(positions.last() == positions[positions.len() - 1]);
    }
}

proof fn lemma_deposits_after_update(positions: Seq<Position>, k: int, p: Position, side: Side)
    requires
        0 <= k < positions.len(),
    ensures
        deposits_on(positions.update(k, p), side) == deposits_on(positions, side) - positions[k].stake_on(
            side,
        ) + p.stake_on(side),
    decreases positions.len(),
{
    let updated = positions.update(k, p);
    if k == positions.len() - 1 {
        assert(updated.drop_last() =~= positions.drop_last());
    } else {
        assert(updated.drop_last() =~= positions.drop_last().update(k, p));
        lemma_deposits_after_update(positions.drop_last(), k, p, side);
    }
}

/// Under a payout, the winning pool times the total paid is at most the whole
/// pool times the winning deposits.
proof fn lemma_payout_total_bound<Addr, Text>(
    market: Market<Addr, Text>,
    positions: Seq<Position>,
    outcome: Outcome,
)
    requires
        settlement_of(market) == Ok::<Settlement, Error>(Settlement::Payout { outcome }),
        market.yes_pool >= 0,
        market.no_pool >= 0,
        stakes_nonnegative(positions),
    ensures
        market.pool_of(side_of(outcome)) * total_claimable(market, positions) <= market.total_pool()
            * deposits_on(positions, side_of(outcome)),
    decreases positions.len(),
{
    let side = side_of(outcome);
    let pool = market.pool_of(side) as int;
    let whole = market.total_pool();
    if positions.len() > 0 {
        let rest = positions.drop_last();
        let p = positions.last();
        assert(p == positions[positions.len() - 1]);
        lemma_prefix_stakes_nonnegative(positions);
        lemma_payout_total_bound(market, rest, outcome);
        let w = p.stake_on(side) as int;
        let c = amount_claimable(market, p);
        assert(pool > 0);
        assert(w >= 0);
        // The last position's share is at most its proportion of the pool.
        assert(pool * c <= whole * w) by {
            lemma_mul_nonnegative(whole, w);
            if c != 0 {
                let x = w * whole;
                lemma_mul_is_commutative(w, whole);
                lemma_mul_nonnegative(w, whole);
                lemma_fundamental_div_mod(x, pool);
                lemma_mod_pos_bound(x, pool);
                lemma_div_pos_is_pos(x, pool);
                lemma_mul_inequality(1, pool, x / pool);
                assert(fits_i128(x / pool));
                assert(c == x / pool);
            }
        }
        let s = total_claimable(market, rest);
        let d = deposits_on(rest, side);
        lemma_mul_is_distributive_add(pool, s, c);
        lemma_mul_is_distributive_add(whole, d, w);
    }
}

/// Under a refund, claims pay at most what the positions deposited.
proof fn lemma_refund_total_bound<Addr, Text>(market: Market<Addr, Text>, positions: Seq<Position>)
    requires
        settlement_of(market) == Ok::<Settlement, Error>(Settlement::Refund),
        stakes_nonnegative(positions),
    ensures
        total_claimable(market, positions) <= deposits_on(positions, Side::Yes) + deposits_on(
            positions,
            Side::No,
        ),
    decreases positions.len(),
{
    if positions.len() > 0 {
        let rest = positions.drop_last();
        assert(positions.last() == positions[positions.len() - 1]);
        lemma_prefix_stakes_nonnegative(positions);
        lemma_refund_total_bound(market, rest);
    }
}

/// Solvency: however the market settles, everything the positions of a
/// market can claim, together, is at most the market's pool. Flooring leaves
/// the dust in the contract, so the sum of successful claims never exceeds
/// the total staked.
pub proof fn lemma_claims_never_exceed_pool<Addr, Text>(
    market: Market<Addr, Text>,
    positions: Seq<Position>,
)
    requires
        pools_match_deposits(market, positions),
        stakes_nonnegative(positions),
    ensures
        total_claimable(market, positions) <= market.total_pool(),
{
    lemma_deposits_nonnegative(positions, Side::Yes);
    lemma_deposits_nonnegative(positions, Side::No);
    match settlement_of(market) {
        Ok(Settlement::Refund) => {
            lemma_refund_total_bound(market, positions);
        },
        Ok(Settlement::Payout { outcome }) => {
            lemma_payout_total_bound(market, positions, outcome);
            let pool = market.pool_of(side_of(outcome)) as int;
            let s = total_claimable(market, positions);
            let whole = market.total_pool();
            assert(pool > 0) by {
                match outcome {
                    Outcome::Yes => {},
                    Outcome::No => {},
                    Outcome::Invalid => {},
                }
            }
            lemma_mul_is_commutative(pool, s);
            lemma_mul_is_commutative(whole, pool);
            lemma_mul_inequality_converse(s, whole, pool);
        },
        Err(_) => {
            lemma_nothing_claimable_before_settlement(market, positions);
        },
    }
}

proof fn lemma_nothing_claimable_before_settlement<Addr, Text>(
    market: Market<Addr, Text>,
    positions: Seq<Position>,
)
    requires
        settlement_of(market) is Err,
    ensures
        total_claimable(market, positions) == 0,
    decreases positions.len(),
{
    if positions.len() > 0 {
        lemma_nothing_claimable_before_settlement(market, positions.drop_last());
    }
}

proof fn lemma_refund_total_exact<Addr, Text>(market: Market<Addr, Text>, positions: Seq<Position>)
    requires
        settlement_of(market) == Ok::<Settlement, Error>(Settlement::Refund),
        stakes_nonnegative(positions),
        forall|i: int| 0 <= i < positions.len() ==> !(#[trigger] positions[i]).claimed,
        deposits_on(positions, Side::Yes) + deposits_on(positions, Side::No) <= i128::MAX,
    ensures
        total_claimable(market, positions) == deposits_on(positions, Side::Yes) + deposits_on(
            positions,
            Side::No,
        ),
    decreases positions.len(),
{
    if positions.len() > 0 {
        let rest = positions.drop_last();
        let p = positions.last();
        assert(p == positions[positions.len() - 1]);
        lemma_prefix_stakes_nonnegative(positions);
        assert forall|i: int| 0 <= i < rest.len() implies !(#[trigger] rest[i]).claimed by {
            assert(rest[i] == positions[i]);
        }
        lemma_deposits_nonnegative(rest, Side::Yes);
        lemma_deposits_nonnegative(rest, Side::No);
        lemma_refund_total_exact(market, rest);
    }
}

/// What a sequence of claims pays out in total: `order` lists, one claim after
/// another, the index of the position claiming; each claim sees the positions
/// as the earlier claims left them, and a refused claim pays nothing.
pub open spec fn paid_by_claims<Addr, Text>(
    market: Market<Addr, Text>,
    positions: Seq<Position>,
    order: Seq<int>,
) -> int
    decreases order.len(),
{
    if order.len() == 0 {
        0
    } else {
        let k = order[0];
        let rest = order.drop_first();
        if 0 <= k < positions.len() {
            match claim_result(Some(market), positions[k]) {
                Ok((p, amount, _)) => amount + paid_by_claims(market, positions.update(k, p), rest),
                Err(_) => paid_by_claims(market, positions, rest),
            }
        } else {
            paid_by_claims(market, positions, rest)
        }
    }
}

proof fn lemma_total_claimable_after_update<Addr, Text>(
    market: Market<Addr, Text>,
    positions: Seq<Position>,
    k: int,
    p: Position,
)
    requires
        0 <= k < positions.len(),
    ensures
        total_claimable(market, positions.update(k, p)) == total_claimable(market, positions)
            - amount_claimable(market, positions[k]) + amount_claimable(market, p),
    decreases positions.len(),
{
    let updated = positions.update(k, p);
    if k == positions.len() - 1 {
        assert(updated.drop_last() =~= positions.drop_last());
    } else {
        assert(updated.drop_last() =~= positions.drop_last().update(k, p));
        lemma_total_claimable_after_update(market, positions.drop_last(), k, p);
    }
}

proof fn lemma_amount_claimable_nonnegative<Addr, Text>(market: Market<Addr, Text>, p: Position)
    requires
        market.yes_pool >= 0,
        market.no_pool >= 0,
        p.yes_amount >= 0,
        p.no_amount >= 0,
    ensures
        amount_claimable(market, p) >= 0,
{
    if let Ok(Settlement::Payout { outcome }) = settlement_of(market) {
        let (w, pool) = crate::payout::winning_stake_and_pool(market, p, outcome);
        if outcome != Outcome::Invalid && pool > 0 {
            lemma_mul_nonnegative(w as int, market.total_pool());
            lemma_div_pos_is_pos(w * market.total_pool(), pool as int);
        }
    }
}

proof fn lemma_paid_by_claims_bounded<Addr, Text>(
    market: Market<Addr, Text>,
    positions: Seq<Position>,
    order: Seq<int>,
)
    requires
        market.yes_pool >= 0,
        market.no_pool >= 0,
        stakes_nonnegative(positions),
    ensures
        paid_by_claims(market, positions, order) <= total_claimable(market, positions),
    decreases order.len(),
{
    if order.len() == 0 {
        lemma_total_claimable_nonnegative(market, positions);
    } else {
        let k = order[0];
        let rest = order.drop_first();
        if 0 <= k < positions.len() {
            match claim_result(Some(market), positions[k]) {
                Ok((p, amount, _)) => {
                    let updated = positions.update(k, p);
                    assert(stakes_nonnegative(updated)) by {
                        assert forall|i: int| 0 <= i < updated.len() implies #[trigger] updated[i].yes_amount
                            >= 0 && updated[i].no_amount >= 0 by {
                            assert(positions[i].yes_amount >= 0);
                        }
                    }
                    lemma_total_claimable_after_update(market, positions, k, p);
                    lemma_paid_by_claims_bounded(market, updated, rest);
                },
                Err(_) => {
                    lemma_paid_by_claims_bounded(market, positions, rest);
                },
            }
        } else {
            lemma_paid_by_claims_bounded(market, positions, rest);
        }
    }
}

proof fn lemma_total_claimable_nonnegative<Addr, Text>(
    market: Market<Addr, Text>,
    positions: Seq<Position>,
)
    requires
        market.yes_pool >= 0,
        market.no_pool >= 0,
        stakes_nonnegative(positions),
    ensures
        total_claimable(market, positions) >= 0,
    decreases positions.len(),
{
    if positions.len() > 0 {
        lemma_prefix_stakes_nonnegative(positions);
        lemma_total_claimable_nonnegative(market, positions.drop_last());
        lemma_amount_claimable_nonnegative(market, positions.last());
    }
}

/// Solvency over any run of claims: whoever claims, in whatever order and
/// however often, the successful claims on a market together pay out at most
/// its pool. Each position is paid once, what it is paid does not depend on
/// the others, and flooring leaves the dust in the contract.
pub proof fn lemma_claims_in_any_order_never_exceed_pool<Addr, Text>(
    market: Market<Addr, Text>,
    positions: Seq<Position>,
    order: Seq<int>,
)
    requires
        pools_match_deposits(market, positions),
        stakes_nonnegative(positions),
    ensures
        paid_by_claims(market, positions, order) <= market.total_pool(),
{
    lemma_deposits_nonnegative(positions, Side::Yes);
    lemma_deposits_nonnegative(positions, Side::No);
    lemma_paid_by_claims_bounded(market, positions, order);
    lemma_claims_never_exceed_pool(market, positions);
}

/// How many of `positions` hold a stake on `side`.
pub open spec fn winners_on(positions: Seq<Position>, side: Side) -> int
    decreases positions.len(),
{
    if positions.len() == 0 {
        0
    } else {
        winners_on(positions.drop_last(), side) + if positions.last().stake_on(side) > 0 {
            1int
        } else {
            0int
        }
    }
}

/// Every position is unclaimed and its share of the pool can be computed
/// without overflow.
pub open spec fn shares_computable<Addr, Text>(
    market: Market<Addr, Text>,
    positions: Seq<Position>,
    side: Side,
) -> bool {
    &&& fits_i128(market.total_pool())
    &&& forall|i: int|
        #![trigger positions[i]]
        0 <= i < positions.len() ==> !positions[i].claimed && fits_i128(
            positions[i].stake_on(side) * market.total_pool(),
        )
}

proof fn lemma_payout_total_floor<Addr, Text>(
    market: Market<Addr, Text>,
    positions: Seq<Position>,
    outcome: Outcome,
)
    requires
        settlement_of(market) == Ok::<Settlement, Error>(Settlement::Payout { outcome }),
        market.yes_pool >= 0,
        market.no_pool >= 0,
        stakes_nonnegative(positions),
        shares_computable(market, positions, side_of(outcome)),
    ensures
        market.pool_of(side_of(outcome)) * total_claimable(market, positions) >= market.total_pool()
            * deposits_on(positions, side_of(outcome)) - (market.pool_of(side_of(outcome)) - 1)
            * winners_on(positions, side_of(outcome)),
        winners_on(positions, side_of(outcome)) >= 0,
        deposits_on(positions, side_of(outcome)) > 0 ==> winners_on(positions, side_of(outcome)) > 0,
    decreases positions.len(),
{
    let side = side_of(outcome);
    let pool = market.pool_of(side) as int;
    let whole = market.total_pool();
    assert(pool > 0) by {
        match outcome {
            Outcome::Yes => {},
            Outcome::No => {},
            Outcome::Invalid => {},
        }
    }
    if positions.len() > 0 {
        let rest = positions.drop_last();
        let p = positions.last();
        assert(p == positions[positions.len() - 1]);
        lemma_prefix_stakes_nonnegative(positions);
        assert(shares_computable(market, rest, side)) by {
            assert forall|i: int| 0 <= i < rest.len() implies !(#[trigger] rest[i]).claimed
                && fits_i128(rest[i].stake_on(side) * whole) by {
                assert(rest[i] == positions[i]);
            }
        }
        lemma_payout_total_floor(market, rest, outcome);
        lemma_deposits_nonnegative(rest, side);
        let w = p.stake_on(side) as int;
        let c = amount_claimable(market, p);
        let won: int = if w > 0 { 1 } else { 0 };
        // The last position's share falls short of its exact proportion by
        // less than one unit.
        assert(pool * c >= whole * w - (pool - 1) * won) by {
            if w > 0 {
                let x = w * whole;
                lemma_mul_is_commutative(w, whole);
                lemma_mul_nonnegative(w, whole);
                lemma_fundamental_div_mod(x, pool);
                lemma_mod_pos_bound(x, pool);
                lemma_div_pos_is_pos(x, pool);
                if x > 0 {
                    assert(c == x / pool);
                } else {
                    assert(x == 0);
                    assert(c == 0);
                    assert(x / pool == 0);
                }
            } else {
                assert(w == 0);
                assert(c == 0);
            }
        }
        let s = total_claimable(market, rest);
        let d = deposits_on(rest, side);
        let k = winners_on(rest, side);
        lemma_mul_is_distributive_add(pool, s, c);
        lemma_mul_is_distributive_add(whole, d, w);
        lemma_mul_is_distributive_add(pool - 1, k, won);
    }
}

/// Rounding loss: under a payout, when no position has claimed yet and every
/// share can be computed, the winners together receive less than the whole
/// pool by fewer units than there are winners (flooring loses under one unit
/// per winner), and never more than the pool.
pub proof fn lemma_rounding_loss_below_one_per_winner<Addr, Text>(
    market: Market<Addr, Text>,
    positions: Seq<Position>,
    outcome: Outcome,
)
    requires
        settlement_of(market) == Ok::<Settlement, Error>(Settlement::Payout { outcome }),
        pools_match_deposits(market, positions),
        stakes_nonnegative(positions),
        shares_computable(market, positions, side_of(outcome)),
    ensures
        total_claimable(market, positions) <= market.total_pool(),
        market.total_pool() - total_claimable(market, positions) < winners_on(
            positions,
            side_of(outcome),
        ),
{
    lemma_deposits_nonnegative(positions, Side::Yes);
    lemma_deposits_nonnegative(positions, Side::No);
    lemma_claims_never_exceed_pool(market, positions);
    lemma_payout_total_floor(market, positions, outcome);
    let pool = market.pool_of(side_of(outcome)) as int;
    let s = total_claimable(market, positions);
    let whole = market.total_pool();
    let k = winners_on(positions, side_of(outcome));
    assert(pool > 0) by {
        match outcome {
            Outcome::Yes => {},
            Outcome::No => {},
            Outcome::Invalid => {},
        }
    }
    assert(deposits_on(positions, side_of(outcome)) == pool) by {
        match outcome {
            Outcome::No => {},
            _ => {},
        }
    }
    lemma_mul_is_commutative(whole, pool);
    assert(whole - s < k) by (nonlinear_arith)
        requires
            pool >= 1,
            k >= 1,
            pool * s >= whole * pool - (pool - 1) * k,
    {
    }
}

/// Refunds give back the whole pool: when a market settles by refund and no
/// position has claimed yet, the claims of all positions together return
/// exactly everything that was staked.
pub proof fn lemma_refunds_return_whole_pool<Addr, Text>(
    market: Market<Addr, Text>,
    positions: Seq<Position>,
)
    requires
        settlement_of(market) == Ok::<Settlement, Error>(Settlement::Refund),
        pools_match_deposits(market, positions),
        stakes_nonnegative(positions),
        forall|i: int| 0 <= i < positions.len() ==> !(#[trigger] positions[i]).claimed,
        fits_i128(market.total_pool()),
    ensures
        total_claimable(market, positions) == market.total_pool(),
{
    lemma_refund_total_exact(market, positions);
}

/// Pool accounting: a stake adds its amount to the side's pool and to the
/// staker's position alike, so pools that equal the positions' deposits
/// before a stake equal them after it.
pub proof fn lemma_stake_keeps_pools_equal_to_deposits<Addr, Text>(
    market: Market<Addr, Text>,
    positions: Seq<Position>,
    k: int,
    now: u64,
    side: Side,
    amount: i128,
)
    requires
        0 <= k < positions.len(),
        pools_match_deposits(market, positions),
        stake_result(Some(market), positions[k], now, side, amount) is Ok,
    ensures
        ({
            let (m, p) = stake_result(Some(market), positions[k], now, side, amount).unwrap();
            pools_match_deposits(m, positions.update(k, p))
        }),
{
    let (m, p) = stake_result(Some(market), positions[k], now, side, amount).unwrap();
    lemma_deposits_after_update(positions, k, p, Side::Yes);
    lemma_deposits_after_update(positions, k, p, Side::No);
}

/// A participant without a stored position starts from an empty one, which
/// adds nothing to the deposits.
pub proof fn lemma_new_position_adds_no_deposit<Addr, Text>(
    market: Market<Addr, Text>,
    positions: Seq<Position>,
)
    requires
        pools_match_deposits(market, positions),
    ensures
        pools_match_deposits(
            market,
            positions.push(Position { yes_amount: 0, no_amount: 0, claimed: false }),
        ),
{
    let e = Position { yes_amount: 0, no_amount: 0, claimed: false };
    assert(positions.push(e).drop_last() =~= positions);
}

/// A claim only marks the claimant's position claimed: deposits, pools and
/// every other position stay as they were, so what any other position can
/// claim does not depend on who claimed first.
pub proof fn lemma_claim_changes_only_the_claimant<Addr, Text>(
    market: Market<Addr, Text>,
    positions: Seq<Position>,
    k: int,
    j: int,
)
    requires
        0 <= k < positions.len(),
        0 <= j < positions.len(),
        j != k,
        claim_result(Some(market), positions[k]) is Ok,
    ensures
        ({
            let (p, _, _) = claim_result(Some(market), positions[k]).unwrap();
            let after = positions.update(k, p);
            &&& deposits_on(after, Side::Yes) == deposits_on(positions, Side::Yes)
            &&& deposits_on(after, Side::No) == deposits_on(positions, Side::No)
            &&& after[j] == positions[j]
            &&& claimable_of(market, after[j]) == claimable_of(market, positions[j])
        }),
{
    let (p, _, _) = claim_result(Some(market), positions[k]).unwrap();
    lemma_deposits_after_update(positions, k, p, Side::Yes);
    lemma_deposits_after_update(positions, k, p, Side::No);
}

/// One claim per position: after a successful claim the position can claim
/// nothing more, and it cannot stake again either.
pub proof fn lemma_claim_happens_once<Addr, Text>(
    market: Market<Addr, Text>,
    position: Position,
    now: u64,
    side: Side,
    amount: i128,
)
    requires
        claim_result(Some(market), position) is Ok,
    ensures
        ({
            let (p, _, _) = claim_result(Some(market), position).unwrap();
            &&& claim_result(Some(market), p) == Err::<(Position, i128, crate::events::ClaimKind), Error>(
                Error::AlreadyClaimed,
            )
            &&& claimable_of(market, p) == Err::<i128, Error>(Error::AlreadyClaimed)
            &&& stake_result(Some(market), p, now, side, amount) is Err
            &&& p.yes_amount == position.yes_amount
            &&& p.no_amount == position.no_amount
        }),
{
}

/// Finalization is final: once a market is resolved or invalidated it can be
/// neither resolved nor invalidated again, and it takes no more stakes.
pub proof fn lemma_finalized_market_refuses_changes<Addr, Text>(
    market: Market<Addr, Text>,
    now: u64,
    outcome: Outcome,
    position: Position,
    side: Side,
    amount: i128,
)
    requires
        market.status != MarketStatus::Open,
    ensures
        resolve_result(Some(market), now, outcome) == Err::<Market<Addr, Text>, Error>(
            Error::AlreadyResolved,
        ),
        invalidate_result(Some(market), now) == Err::<Market<Addr, Text>, Error>(
            Error::AlreadyResolved,
        ),
        amount > 0 ==> stake_result(Some(market), position, now, side, amount) == Err::<
            (Market<Addr, Text>, Position),
            Error,
        >(Error::MarketClosed),
{
}

/// Resolving or invalidating finalizes the market and changes nothing but
/// its status, outcome and finalization time: the pools keep every deposit.
pub proof fn lemma_finalization_closes_market<Addr, Text>(
    market: Market<Addr, Text>,
    positions: Seq<Position>,
    now: u64,
    outcome: Outcome,
)
    ensures
        resolve_result(Some(market), now, outcome) matches Ok(m) ==> {
            &&& m.status != MarketStatus::Open
            &&& m.finalized_at == now
            &&& (pools_match_deposits(market, positions) ==> pools_match_deposits(m, positions))
        },
        invalidate_result(Some(market), now) matches Ok(m) ==> {
            &&& m.status == MarketStatus::Invalid
            &&& m.finalized_at == now
            &&& (pools_match_deposits(market, positions) ==> pools_match_deposits(m, positions))
        },
{
}

/// The staking window and the finalization window never overlap: a stake
/// is taken only before `close_at`, a resolution only from `close_at` on, and
/// an invalidation only once `close_at + resolution_timeout` has passed.
pub proof fn lemma_staking_ends_before_finalization<Addr, Text>(
    market: Market<Addr, Text>,
    position: Position,
    now: u64,
    side: Side,
    amount: i128,
    outcome: Outcome,
)
    ensures
        stake_result(Some(market), position, now, side, amount) is Ok ==> now < market.close_at,
        resolve_result(Some(market), now, outcome) is Ok ==> now >= market.close_at,
        invalidate_result(Some(market), now) is Ok ==> now >= market.close_at
            + market.resolution_timeout,
        !(stake_result(Some(market), position, now, side, amount) is Ok && resolve_result(
            Some(market),
            now,
            outcome,
        ) is Ok),
        !(stake_result(Some(market), position, now, side, amount) is Ok && invalidate_result(
            Some(market),
            now,
        ) is Ok),
{
}

/// Every market the contract creates is well formed, and staking, resolving
/// and invalidating keep it so.
pub proof fn lemma_operations_keep_markets_well_formed<Addr, Text>(
    market: Market<Addr, Text>,
    position: Position,
    now: u64,
    side: Side,
    amount: i128,
    outcome: Outcome,
)
    requires
        market.is_well_formed(),
    ensures
        stake_result(Some(market), position, now, side, amount) matches Ok((m, _)) ==> m.is_well_formed(),
        resolve_result(Some(market), now, outcome) matches Ok(m) ==> m.is_well_formed(),
        invalidate_result(Some(market), now) matches Ok(m) ==> m.is_well_formed(),
{
}

/// A market accepted by `create_market` is well formed, open and empty, and
/// takes the next id, the counter moving on by one.
pub proof fn lemma_created_market_is_well_formed<Addr, Text>(
    next_id: u64,
    now: u64,
    creator: Addr,
    resolver: Addr,
    question: Text,
    question_len: u32,
    description: Text,
    description_len: u32,
    token: Addr,
    close_at: u64,
    resolution_timeout: u64,
)
    requires
        creation_refusal(next_id, now, question_len, description_len, close_at, resolution_timeout)
            is None,
    ensures
        ({
            let m = fresh_market(
                next_id,
                now,
                creator,
                resolver,
                question,
                description,
                token,
                close_at,
                resolution_timeout,
            );
            &&& m.is_well_formed()
            &&& m.status == MarketStatus::Open
            &&& m.total_pool() == 0
            &&& m.id == next_id
            &&& next_id < u64::MAX
            &&& m.open_for_staking(now)
            &&& pools_match_deposits(m, Seq::<Position>::empty())
        }),
{
}

} // verus!

//! What each operation is for, stated over the fields of its inputs and of
//! its result: when it must succeed, what it must refuse, and what a success
//! must hand back.

use vstd::prelude::*;

use vstd::arithmetic::div_mod::{
    lemma_div_is_ordered_by_denominator, lemma_div_pos_is_pos, lemma_fundamental_div_mod,
    lemma_mod_pos_bound,
};
use vstd::arithmetic::mul::{lemma_mul_is_distributive_add, lemma_mul_nonnegative, lemma_mul_strictly_positive};

use crate::contract::{
    claim_result, creation_refusal, fresh_market, invalidate_result, market_view, position_view,
    resolution_authorizer_of, resolve_result, stake_result,
};
use crate::errors::Error;
use crate::events::ClaimKind;
use crate::payout::{claimable_of, payout_division_overflows, settlement_of, Settlement};
use crate::types::{
    fits_i128, Market, MarketOutcome, MarketStatus, Outcome, Position, Side, MAX_DESCRIPTION_LEN,
    MAX_QUESTION_LEN, MAX_RESOLUTION_TIMEOUT_SECS, MIN_MARKET_DURATION_SECS,
    MIN_RESOLUTION_TIMEOUT_SECS,
};

verus! {

/// Settlement: an open market is not settled; an invalidated market, or one
/// resolved as invalid, refunds; a market resolved to a side pays that side
/// whenever its pool is not empty, and refunds when nobody staked on it.
pub proof fn lemma_settlement_rules<Addr, Text>(m: Market<Addr, Text>)
    ensures
        m.status == MarketStatus::Open ==> settlement_of(m) == Err::<Settlement, Error>(
            Error::MarketNotResolved,
        ),
        m.status == MarketStatus::Invalid ==> settlement_of(m) == Ok::<Settlement, Error>(
            Settlement::Refund,
        ),
        m.status == MarketStatus::Resolved && m.outcome == MarketOutcome::Invalid ==> settlement_of(m)
            == Ok::<Settlement, Error>(Settlement::Refund),
        m.status == MarketStatus::Resolved && m.outcome == MarketOutcome::Unset ==> settlement_of(m)
            == Err::<Settlement, Error>(Error::MarketNotResolved),
        m.status == MarketStatus::Resolved && m.outcome == MarketOutcome::Yes && m.yes_pool != 0
            ==> settlement_of(m) == Ok::<Settlement, Error>(Settlement::Payout { outcome: Outcome::Yes }),
        m.status == MarketStatus::Resolved && m.outcome == MarketOutcome::Yes && m.yes_pool == 0
            ==> settlement_of(m) == Ok::<Settlement, Error>(Settlement::Refund),
        m.status == MarketStatus::Resolved && m.outcome == MarketOutcome::No && m.no_pool != 0
            ==> settlement_of(m) == Ok::<Settlement, Error>(Settlement::Payout { outcome: Outcome::No }),
        m.status == MarketStatus::Resolved && m.outcome == MarketOutcome::No && m.no_pool == 0
            ==> settlement_of(m) == Ok::<Settlement, Error>(Settlement::Refund),
{
}

/// The market is settled by refund: invalidated, resolved as invalid, or
/// resolved to a side nobody staked on.
pub open spec fn refunds<Addr, Text>(m: Market<Addr, Text>) -> bool {
    ||| m.status == MarketStatus::Invalid
    ||| m.status == MarketStatus::Resolved && (m.outcome == MarketOutcome::Invalid || (m.outcome
        == MarketOutcome::Yes && m.yes_pool == 0) || (m.outcome == MarketOutcome::No && m.no_pool
        == 0))
}

/// `a` is the floor of `stake * whole / pool`, for a positive pool.
pub open spec fn is_floor_share(a: int, stake: int, whole: int, pool: int) -> bool {
    pool * a <= stake * whole < pool * (a + 1)
}

/// A successful claim pays exactly what the position may claim, from an
/// unclaimed position, and only marks it claimed.
pub open spec fn claim_pays_what_is_claimable<Addr, Text>(m: Market<Addr, Text>, p: Position) -> bool {
    claim_result(Some(m), p) matches Ok((p2, a, _)) ==> {
        &&& claimable_of(m, p) == Ok::<i128, Error>(a)
        &&& p2 == (Position { claimed: true, ..p })
        &&& !p.claimed
    }
}

/// The claim succeeds, pays `amount`, is reported as `kind`, and marks the
/// position claimed.
pub open spec fn claim_pays<Addr, Text>(m: Market<Addr, Text>, p: Position, amount: int, kind: ClaimKind) -> bool {
    claim_result(Some(m), p) == Ok::<(Position, i128, ClaimKind), Error>(
        (Position { claimed: true, ..p }, amount as i128, kind),
    )
}

/// The claim succeeds as a payout of the floor of `stake * whole / pool`,
/// and marks the position claimed.
pub open spec fn claim_pays_share<Addr, Text>(m: Market<Addr, Text>, p: Position, stake: int, pool: int) -> bool {
    claim_result(Some(m), p) matches Ok((p2, a, k)) && {
        &&& k == ClaimKind::Payout
        &&& p2 == (Position { claimed: true, ..p })
        &&& is_floor_share(a as int, stake, m.yes_pool + m.no_pool, pool)
    }
}

proof fn lemma_floor_share(x: int, pool: int)
    requires
        x >= 0,
        pool > 0,
        fits_i128(x),
    ensures
        pool * (x / pool) <= x < pool * (x / pool + 1),
        0 <= x / pool <= x,
        fits_i128(x / pool),
{
    lemma_fundamental_div_mod(x, pool);
    lemma_mod_pos_bound(x, pool);
    lemma_div_pos_is_pos(x, pool);
    lemma_div_is_ordered_by_denominator(x, 1, pool);
    assert(x / 1 == x);
    lemma_mul_is_distributive_add(pool, x / pool, 1);
}

/// Claims: a claim succeeds only for an unclaimed position, pays exactly what
/// the position may claim, and marks the position claimed without touching
/// its stakes. Under a refund it pays back both sides' deposits; under a
/// payout it pays a winner the floor of its share of the whole pool, and
/// refuses a position with nothing on the winning side.
pub proof fn lemma_claim_pays_refund_or_share<Addr, Text>(m: Market<Addr, Text>, p: Position)
    ensures
        claim_pays_what_is_claimable(m, p),
        claim_result(None::<Market<Addr, Text>>, p) == Err::<(Position, i128, ClaimKind), Error>(
            Error::MarketNotFound,
        ),
        p.claimed ==> claim_result(Some(m), p) == Err::<(Position, i128, ClaimKind), Error>(
            Error::AlreadyClaimed,
        ),
        !p.claimed && p.yes_amount == 0 && p.no_amount == 0 ==> claim_result(Some(m), p) == Err::<
            (Position, i128, ClaimKind),
            Error,
        >(Error::NoPosition),
        !p.claimed && !(p.yes_amount == 0 && p.no_amount == 0) && m.status == MarketStatus::Open
            ==> claim_result(Some(m), p) == Err::<(Position, i128, ClaimKind), Error>(
            Error::MarketNotResolved,
        ),
        // A refund returns both sides.
        refunds(m) && !p.claimed && !(p.yes_amount == 0 && p.no_amount == 0) && fits_i128(
            p.yes_amount + p.no_amount,
        ) ==> claim_pays(m, p, p.yes_amount + p.no_amount, ClaimKind::Refund),
        // A YES winner gets the floor of its share.
        m.status == MarketStatus::Resolved && m.outcome == MarketOutcome::Yes && m.yes_pool > 0
            && m.no_pool >= 0 && !p.claimed && p.yes_amount > 0 && fits_i128(m.yes_pool + m.no_pool)
            && fits_i128(p.yes_amount * (m.yes_pool + m.no_pool)) ==> claim_pays_share(
            m,
            p,
            p.yes_amount as int,
            m.yes_pool as int,
        ),
        // A NO winner gets the floor of its share.
        m.status == MarketStatus::Resolved && m.outcome == MarketOutcome::No && m.no_pool > 0
            && m.yes_pool >= 0 && !p.claimed && p.no_amount > 0 && fits_i128(m.yes_pool + m.no_pool)
            && fits_i128(p.no_amount * (m.yes_pool + m.no_pool)) ==> claim_pays_share(
            m,
            p,
            p.no_amount as int,
            m.no_pool as int,
        ),
        // Sums that do not fit are refused.
        refunds(m) && !p.claimed && !(p.yes_amount == 0 && p.no_amount == 0) && !fits_i128(
            p.yes_amount + p.no_amount,
        ) ==> claim_result(Some(m), p) == Err::<(Position, i128, ClaimKind), Error>(Error::Overflow),
        m.status == MarketStatus::Resolved && m.outcome == MarketOutcome::Yes && m.yes_pool != 0
            && !p.claimed && p.yes_amount != 0 && (!fits_i128(m.yes_pool + m.no_pool) || !fits_i128(
            p.yes_amount * (m.yes_pool + m.no_pool),
        )) ==> claim_result(Some(m), p) == Err::<(Position, i128, ClaimKind), Error>(Error::Overflow),
        m.status == MarketStatus::Resolved && m.outcome == MarketOutcome::No && m.no_pool != 0
            && !p.claimed && p.no_amount != 0 && (!fits_i128(m.yes_pool + m.no_pool) || !fits_i128(
            p.no_amount * (m.yes_pool + m.no_pool),
        )) ==> claim_result(Some(m), p) == Err::<(Position, i128, ClaimKind), Error>(Error::Overflow),
        // Nothing on the winning side: nothing to claim.
        m.status == MarketStatus::Resolved && m.outcome == MarketOutcome::Yes && m.yes_pool != 0
            && !p.claimed && p.yes_amount == 0 && p.no_amount != 0 ==> claim_result(Some(m), p)
            == Err::<(Position, i128, ClaimKind), Error>(Error::NotWinner),
        m.status == MarketStatus::Resolved && m.outcome == MarketOutcome::No && m.no_pool != 0
            && !p.claimed && p.no_amount == 0 && p.yes_amount != 0 ==> claim_result(Some(m), p)
            == Err::<(Position, i128, ClaimKind), Error>(Error::NotWinner),
{
    let whole = m.yes_pool + m.no_pool;
    if m.status == MarketStatus::Resolved && m.outcome == MarketOutcome::Yes && m.yes_pool > 0
        && m.no_pool >= 0 && !p.claimed && p.yes_amount > 0 && fits_i128(whole) && fits_i128(
        p.yes_amount * whole,
    ) {
        lemma_mul_strictly_positive(p.yes_amount as int, whole);
        lemma_floor_share(p.yes_amount * whole, m.yes_pool as int);
    }
    if m.status == MarketStatus::Resolved && m.outcome == MarketOutcome::No && m.no_pool > 0
        && m.yes_pool >= 0 && !p.claimed && p.no_amount > 0 && fits_i128(whole) && fits_i128(
        p.no_amount * whole,
    ) {
        lemma_mul_strictly_positive(p.no_amount as int, whole);
        lemma_floor_share(p.no_amount * whole, m.no_pool as int);
    }
}

/// A successful resolution records the declared side (or invalidity) and the
/// time, and nothing else.
pub open spec fn resolution_records<Addr, Text>(m: Market<Addr, Text>, now: u64, o: Outcome) -> bool {
    resolve_result(Some(m), now, o) matches Ok(r) ==> {
        &&& r == (Market { status: r.status, outcome: r.outcome, finalized_at: now, ..m })
        &&& o == Outcome::Yes ==> r.status == MarketStatus::Resolved && r.outcome == MarketOutcome::Yes
        &&& o == Outcome::No ==> r.status == MarketStatus::Resolved && r.outcome == MarketOutcome::No
        &&& o == Outcome::Invalid ==> r.status == MarketStatus::Invalid && r.outcome
            == MarketOutcome::Invalid
    }
}

/// Resolution: an open market whose deadline has passed is always resolved,
/// whenever the resolver acts; a YES or NO declaration records that side as
/// the outcome of a resolved market, an invalid one invalidates the market,
/// and nothing else but the finalization time changes.
pub proof fn lemma_resolve_records_the_declared_outcome<Addr, Text>(
    m: Market<Addr, Text>,
    now: u64,
    o: Outcome,
)
    ensures
        m.status == MarketStatus::Open && now >= m.close_at ==> (resolve_result(Some(m), now, o) is Ok),
        m.status != MarketStatus::Open ==> resolve_result(Some(m), now, o) == Err::<
            Market<Addr, Text>,
            Error,
        >(Error::AlreadyResolved),
        m.status == MarketStatus::Open && now < m.close_at ==> resolve_result(Some(m), now, o)
            == Err::<Market<Addr, Text>, Error>(Error::MarketStillOpen),
        resolve_result(None::<Market<Addr, Text>>, now, o) == Err::<Market<Addr, Text>, Error>(
            Error::MarketNotFound,
        ),
        resolution_records(m, now, o),
{
}

/// The market invalidated at `now`: nothing else changes.
pub open spec fn invalidated<Addr, Text>(m: Market<Addr, Text>, now: u64) -> Market<Addr, Text> {
    Market { status: MarketStatus::Invalid, outcome: MarketOutcome::Invalid, finalized_at: now, ..m }
}

/// Invalidation: once `close_at + resolution_timeout` has passed, anyone can
/// invalidate a market the resolver left open, whatever it holds; before, or
/// on a finalized market, it is refused. Invalidating changes nothing but
/// the status, the outcome and the finalization time.
pub proof fn lemma_invalidate_after_timeout<Addr, Text>(m: Market<Addr, Text>, now: u64)
    ensures
        m.status == MarketStatus::Open && m.close_at + m.resolution_timeout <= u64::MAX && now
            >= m.close_at + m.resolution_timeout ==> invalidate_result(Some(m), now) == Ok::<
            Market<Addr, Text>,
            Error,
        >(invalidated(m, now)),
        m.status != MarketStatus::Open ==> invalidate_result(Some(m), now) == Err::<
            Market<Addr, Text>,
            Error,
        >(Error::AlreadyResolved),
        m.status == MarketStatus::Open && now < m.close_at ==> invalidate_result(Some(m), now)
            == Err::<Market<Addr, Text>, Error>(Error::DeadlineNotReached),
        m.status == MarketStatus::Open && m.close_at <= now && m.close_at + m.resolution_timeout
            > u64::MAX ==> invalidate_result(Some(m), now) == Err::<Market<Addr, Text>, Error>(
            Error::Overflow,
        ),
        m.status == MarketStatus::Open && m.close_at <= now < m.close_at + m.resolution_timeout
            && m.close_at + m.resolution_timeout <= u64::MAX ==> invalidate_result(Some(m), now)
            == Err::<Market<Addr, Text>, Error>(Error::ResolutionTimeoutNotReached),
        invalidate_result(None::<Market<Addr, Text>>, now) == Err::<Market<Addr, Text>, Error>(
            Error::MarketNotFound,
        ),
{
}

/// Creation: a request is accepted exactly when the question has 1 to
/// `MAX_QUESTION_LEN` bytes, the description at most `MAX_DESCRIPTION_LEN`,
/// `close_at` lies at least `MIN_MARKET_DURATION_SECS` after now, the
/// timeout is within its bounds and the id counter can move on; there is no
/// other limit (on how far ahead `close_at` lies, for one). A bad question is
/// reported before a bad configuration, and both before a full counter.
pub proof fn lemma_create_market_accepts_every_valid_request(
    next_id: u64,
    now: u64,
    question_len: u32,
    description_len: u32,
    close_at: u64,
    resolution_timeout: u64,
)
    ensures
        ({
            let r = creation_refusal(
                next_id,
                now,
                question_len,
                description_len,
                close_at,
                resolution_timeout,
            );
            let question_ok = 1 <= question_len <= MAX_QUESTION_LEN;
            let config_ok = description_len <= MAX_DESCRIPTION_LEN && close_at >= now
                + MIN_MARKET_DURATION_SECS && MIN_RESOLUTION_TIMEOUT_SECS <= resolution_timeout
                <= MAX_RESOLUTION_TIMEOUT_SECS;
            &&& (r is None <==> question_ok && config_ok && next_id < u64::MAX)
            &&& !question_ok ==> r == Some(Error::InvalidQuestion)
            &&& question_ok && !config_ok ==> r == Some(Error::InvalidMarketConfig)
            &&& question_ok && config_ok && next_id == u64::MAX ==> r == Some(Error::Overflow)
        }),
{
}

/// A created market is open and empty, takes the id it was given and records
/// every argument as given.
pub proof fn lemma_created_market_records_its_arguments<Addr, Text>(
    id: u64,
    now: u64,
    creator: Addr,
    resolver: Addr,
    question: Text,
    description: Text,
    token: Addr,
    close_at: u64,
    resolution_timeout: u64,
)
    ensures
        ({
            let m = fresh_market(
                id,
                now,
                creator,
                resolver,
                question,
                description,
                token,
                close_at,
                resolution_timeout,
            );
            &&& m.id == id
            &&& m.creator == creator
            &&& m.resolver == resolver
            &&& m.question == question
            &&& m.description == description
            &&& m.token == token
            &&& m.created_at == now
            &&& m.close_at == close_at
            &&& m.resolution_timeout == resolution_timeout
            &&& m.yes_pool == 0
            &&& m.no_pool == 0
            &&& m.status == MarketStatus::Open
            &&& m.outcome == MarketOutcome::Unset
            &&& m.finalized_at == 0
        }),
{
}

/// A positive amount on an open market before its deadline, from an
/// unclaimed position, is taken whenever the sums fit.
pub open spec fn stake_taken_when_allowed<Addr, Text>(
    market: Option<Market<Addr, Text>>,
    p: Position,
    now: u64,
    side: Side,
    amount: i128,
) -> bool {
    (market matches Some(m) && amount > 0 && m.status == MarketStatus::Open && now < m.close_at
        && !p.claimed && (side == Side::Yes ==> fits_i128(m.yes_pool + amount) && fits_i128(
        p.yes_amount + amount,
    )) && (side == Side::No ==> fits_i128(m.no_pool + amount) && fits_i128(p.no_amount + amount)))
        ==> stake_result(market, p, now, side, amount) is Ok
}

/// On an open market before its deadline, a positive amount is refused with
/// `Overflow` when the side's pool would overflow, then with
/// `AlreadyClaimed` for a claimed position, then with `Overflow` when the
/// position's side would overflow.
pub open spec fn stake_refusals_in_order<Addr, Text>(
    market: Option<Market<Addr, Text>>,
    p: Position,
    now: u64,
    side: Side,
    amount: i128,
) -> bool {
    market matches Some(m) ==> {
        let pool = if side == Side::Yes { m.yes_pool } else { m.no_pool };
        let stake = if side == Side::Yes { p.yes_amount } else { p.no_amount };
        let r = stake_result(market, p, now, side, amount);
        (amount > 0 && m.status == MarketStatus::Open && now < m.close_at) ==> {
            &&& !fits_i128(pool + amount) ==> r == Err::<(Market<Addr, Text>, Position), Error>(
                Error::Overflow,
            )
            &&& fits_i128(pool + amount) && p.claimed ==> r == Err::<
                (Market<Addr, Text>, Position),
                Error,
            >(Error::AlreadyClaimed)
            &&& fits_i128(pool + amount) && !p.claimed && !fits_i128(stake + amount) ==> r == Err::<
                (Market<Addr, Text>, Position),
                Error,
            >(Error::Overflow)
        }
    }
}

/// A taken stake adds the amount to the chosen side of both the market and
/// the position, and changes nothing else.
pub open spec fn stake_adds_amount<Addr, Text>(
    market: Option<Market<Addr, Text>>,
    p: Position,
    now: u64,
    side: Side,
    amount: i128,
) -> bool {
    stake_result(market, p, now, side, amount) matches Ok((m2, p2)) ==> {
        &&& amount > 0
        &&& !p.claimed
        &&& market matches Some(m) && m.status == MarketStatus::Open && now < m.close_at && (side
            == Side::Yes ==> m2 == (Market { yes_pool: (m.yes_pool + amount) as i128, ..m }) && p2
            == (Position { yes_amount: (p.yes_amount + amount) as i128, ..p })) && (side == Side::No
            ==> m2 == (Market { no_pool: (m.no_pool + amount) as i128, ..m }) && p2 == (Position {
            no_amount: (p.no_amount + amount) as i128,
            ..p
        }))
    }
}

/// Staking: a positive amount on an open market before its deadline, from an
/// unclaimed position, is always taken while the sums fit; it adds the
/// amount to the chosen side's pool and to the same side of the position,
/// and changes nothing else.
pub proof fn lemma_stake_adds_to_one_side<Addr, Text>(
    market: Option<Market<Addr, Text>>,
    p: Position,
    now: u64,
    side: Side,
    amount: i128,
)
    ensures
        amount <= 0 ==> stake_result(market, p, now, side, amount) == Err::<
            (Market<Addr, Text>, Position),
            Error,
        >(Error::InvalidAmount),
        amount > 0 && (market is None) ==> stake_result(market, p, now, side, amount) == Err::<
            (Market<Addr, Text>, Position),
            Error,
        >(Error::MarketNotFound),
        (market matches Some(m) && amount > 0 && !(m.status == MarketStatus::Open && now < m.close_at)
            ==> stake_result(market, p, now, side, amount) == Err::<
            (Market<Addr, Text>, Position),
            Error,
        >(Error::MarketClosed)),
        stake_taken_when_allowed(market, p, now, side, amount),
        stake_refusals_in_order(market, p, now, side, amount),
        stake_adds_amount(market, p, now, side, amount),
{
}

/// The views: a stored market is reported as stored, a missing one as not
/// found; a missing position reads as an empty, unclaimed one.
pub proof fn lemma_views_report_storage<Addr, Text>(m: Market<Addr, Text>, p: Position)
    ensures
        market_view(Some(m)) == Ok::<Market<Addr, Text>, Error>(m),
        market_view(None::<Market<Addr, Text>>) == Err::<Market<Addr, Text>, Error>(
            Error::MarketNotFound,
        ),
        position_view(Some(p)) == p,
        (position_view(None) == (Position { yes_amount: 0, no_amount: 0, claimed: false })),
{
}

/// Resolution is authorized by the market's resolver, and asked for only of
/// an existing market that is still open.
pub proof fn lemma_resolver_authorizes_resolution<Addr, Text>(m: Market<Addr, Text>)
    ensures
        m.status == MarketStatus::Open ==> resolution_authorizer_of(Some(m)) == Ok::<Addr, Error>(
            m.resolver,
        ),
        m.status != MarketStatus::Open ==> resolution_authorizer_of(Some(m)) == Err::<Addr, Error>(
            Error::AlreadyResolved,
        ),
        resolution_authorizer_of(None::<Market<Addr, Text>>) == Err::<Addr, Error>(
            Error::MarketNotFound,
        ),
{
}

/// Outcomes are recorded as the same side, and read back as it; a position's
/// total is the sum of both sides, or `Overflow` when it does not fit.
pub proof fn lemma_records_keep_their_values(p: Position)
    ensures
        MarketOutcome::recording(Outcome::Yes) == MarketOutcome::Yes,
        MarketOutcome::recording(Outcome::No) == MarketOutcome::No,
        MarketOutcome::recording(Outcome::Invalid) == MarketOutcome::Invalid,
        MarketOutcome::Unset.recorded() == None::<Outcome>,
        MarketOutcome::Yes.recorded() == Some(Outcome::Yes),
        MarketOutcome::No.recorded() == Some(Outcome::No),
        MarketOutcome::Invalid.recorded() == Some(Outcome::Invalid),
        fits_i128(p.yes_amount + p.no_amount) ==> p.checked_total() == Ok::<i128, Error>(
            (p.yes_amount + p.no_amount) as i128,
        ),
        !fits_i128(p.yes_amount + p.no_amount) ==> p.checked_total() == Err::<i128, Error>(
            Error::Overflow,
        ),
        p.holds_nothing() <==> p.yes_amount == 0 && p.no_amount == 0,
{
}

/// The payout division can overflow only on a market with a negative winning
/// pool; on the markets the contract keeps, whose pools are never negative,
/// every claim can be computed.
pub proof fn lemma_division_overflow_needs_negative_pool<Addr, Text>(m: Market<Addr, Text>, p: Position)
    ensures
        payout_division_overflows(m, p) ==> m.yes_pool < 0 || m.no_pool < 0,
        m.yes_pool >= 0 && m.no_pool >= 0 ==> !payout_division_overflows(m, p),
{
}

} // verus!

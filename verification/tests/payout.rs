use resolve::{
    claimable_amount, payout_division_overflows_for, settlement_for, Error, Market, MarketOutcome, MarketStatus, Outcome,
    Position, Settlement,
};

fn market_fixture(yes: i128, no: i128, status: MarketStatus, outcome: MarketOutcome) -> Market<u32, String> {
    Market {
        id: 1,
        creator: 10,
        resolver: 11,
        question: String::from("q"),
        description: String::from("d"),
        token: 12,
        created_at: 0,
        close_at: 100,
        resolution_timeout: 3600,
        yes_pool: yes,
        no_pool: no,
        status,
        outcome,
        finalized_at: 200,
    }
}

fn position(yes: i128, no: i128) -> Position {
    Position { yes_amount: yes, no_amount: no, claimed: false }
}

#[test]
fn payout_yes_proportional() {
    let m = market_fixture(1000, 500, MarketStatus::Resolved, MarketOutcome::Yes);
    let p = Position { yes_amount: 250, no_amount: 0, claimed: false };
    // 250 * 1500 / 1000 = 375
    assert_eq!(claimable_amount(&m, &p).unwrap(), 375);
}

#[test]
fn payout_floors_dust() {
    let m = market_fixture(3, 1, MarketStatus::Resolved, MarketOutcome::Yes);
    let p = Position { yes_amount: 1, no_amount: 0, claimed: false };
    // 1 * 4 / 3 = 1 (floor)
    assert_eq!(claimable_amount(&m, &p).unwrap(), 1);
}

#[test]
fn refund_on_invalid() {
    let m = market_fixture(100, 50, MarketStatus::Invalid, MarketOutcome::Invalid);
    let p = Position { yes_amount: 40, no_amount: 10, claimed: false };
    assert_eq!(claimable_amount(&m, &p).unwrap(), 50);
}

#[test]
fn zero_sided_yes_win_refunds() {
    let m = market_fixture(0, 1000, MarketStatus::Resolved, MarketOutcome::Yes);
    assert_eq!(settlement_for(&m).unwrap(), Settlement::Refund);
}

#[test]
fn settlement_of_each_state() {
    let open = market_fixture(10, 10, MarketStatus::Open, MarketOutcome::Unset);
    assert_eq!(settlement_for(&open), Err(Error::MarketNotResolved));
    let no_outcome = market_fixture(10, 10, MarketStatus::Resolved, MarketOutcome::Unset);
    assert_eq!(settlement_for(&no_outcome), Err(Error::MarketNotResolved));
    let yes = market_fixture(10, 10, MarketStatus::Resolved, MarketOutcome::Yes);
    assert_eq!(settlement_for(&yes), Ok(Settlement::Payout { outcome: Outcome::Yes }));
    let no = market_fixture(10, 10, MarketStatus::Resolved, MarketOutcome::No);
    assert_eq!(settlement_for(&no), Ok(Settlement::Payout { outcome: Outcome::No }));
    let no_empty = market_fixture(10, 0, MarketStatus::Resolved, MarketOutcome::No);
    assert_eq!(settlement_for(&no_empty), Ok(Settlement::Refund));
    let resolved_invalid = market_fixture(10, 10, MarketStatus::Resolved, MarketOutcome::Invalid);
    assert_eq!(settlement_for(&resolved_invalid), Ok(Settlement::Refund));
    let invalid = market_fixture(10, 10, MarketStatus::Invalid, MarketOutcome::Invalid);
    assert_eq!(settlement_for(&invalid), Ok(Settlement::Refund));
}

#[test]
fn payout_no_side_formula() {
    // 800 * (200 + 800) / 800 = 1000
    let m = market_fixture(200, 800, MarketStatus::Resolved, MarketOutcome::No);
    assert_eq!(claimable_amount(&m, &position(0, 800)), Ok(1000));
    // 1 * 10 / 3 = 3 (floor of 3.33); the YES stake is forfeited
    let m = market_fixture(7, 3, MarketStatus::Resolved, MarketOutcome::No);
    assert_eq!(claimable_amount(&m, &position(5, 1)), Ok(3));
}

#[test]
fn payout_pays_only_the_winning_side() {
    let m = market_fixture(100, 200, MarketStatus::Resolved, MarketOutcome::Yes);
    assert_eq!(claimable_amount(&m, &position(100, 100)), Ok(300));
    assert_eq!(claimable_amount(&m, &position(0, 100)), Err(Error::NotWinner));
}

#[test]
fn refund_returns_both_sides() {
    let m = market_fixture(0, 700, MarketStatus::Resolved, MarketOutcome::Yes);
    assert_eq!(claimable_amount(&m, &position(0, 700)), Ok(700));
    let m = market_fixture(30, 20, MarketStatus::Invalid, MarketOutcome::Invalid);
    assert_eq!(claimable_amount(&m, &position(30, 20)), Ok(50));
}

#[test]
fn claimable_refusals() {
    let m = market_fixture(100, 50, MarketStatus::Resolved, MarketOutcome::Yes);
    let claimed = Position { yes_amount: 10, no_amount: 0, claimed: true };
    assert_eq!(claimable_amount(&m, &claimed), Err(Error::AlreadyClaimed));
    assert_eq!(claimable_amount(&m, &position(0, 0)), Err(Error::NoPosition));
    let open = market_fixture(100, 50, MarketStatus::Open, MarketOutcome::Unset);
    assert_eq!(claimable_amount(&open, &position(10, 0)), Err(Error::MarketNotResolved));
}

#[test]
fn claimable_overflow() {
    // The product of the stake and the whole pool does not fit an i128.
    let big = i128::MAX / 2;
    let m = market_fixture(big, big, MarketStatus::Resolved, MarketOutcome::Yes);
    assert_eq!(claimable_amount(&m, &position(big, 0)), Err(Error::Overflow));
    // The whole pool itself does not fit.
    let m = market_fixture(i128::MAX, 1, MarketStatus::Resolved, MarketOutcome::Yes);
    assert_eq!(claimable_amount(&m, &position(1, 0)), Err(Error::Overflow));
    // A refund whose total does not fit.
    let m = market_fixture(i128::MAX, i128::MAX, MarketStatus::Invalid, MarketOutcome::Invalid);
    assert_eq!(claimable_amount(&m, &position(i128::MAX, 1)), Err(Error::Overflow));
}

#[test]
fn claims_never_exceed_pool_concrete() {
    // Three winners of 7 each and a loser of 10: each gets 7 * 31 / 21 = 10.
    let m = market_fixture(21, 10, MarketStatus::Resolved, MarketOutcome::Yes);
    let positions = [position(7, 0), position(7, 0), position(7, 0), position(0, 10)];
    let paid: i128 = positions
        .iter()
        .map(|p| claimable_amount(&m, p).unwrap_or(0))
        .sum();
    assert_eq!(paid, 30);
    assert!(paid <= m.yes_pool + m.no_pool);
}

#[test]
fn refunds_return_whole_pool_concrete() {
    let m = market_fixture(123 + 789, 456, MarketStatus::Invalid, MarketOutcome::Invalid);
    let positions = [position(123, 0), position(0, 456), position(789, 0)];
    let paid: i128 = positions.iter().map(|p| claimable_amount(&m, p).unwrap()).sum();
    assert_eq!(paid, m.yes_pool + m.no_pool);
}

#[test]
fn outcome_conversions() {
    assert_eq!(MarketOutcome::from_resolve(Outcome::Yes), MarketOutcome::Yes);
    assert_eq!(MarketOutcome::from_resolve(Outcome::No), MarketOutcome::No);
    assert_eq!(MarketOutcome::from_resolve(Outcome::Invalid), MarketOutcome::Invalid);
    assert_eq!(MarketOutcome::Unset.as_outcome(), None);
    assert_eq!(MarketOutcome::Yes.as_outcome(), Some(Outcome::Yes));
    assert_eq!(MarketOutcome::No.as_outcome(), Some(Outcome::No));
    assert_eq!(MarketOutcome::Invalid.as_outcome(), Some(Outcome::Invalid));
    for o in [Outcome::Yes, Outcome::No, Outcome::Invalid] {
        assert_eq!(MarketOutcome::from_resolve(o).as_outcome(), Some(o));
    }
}

#[test]
fn position_helpers() {
    let e = Position::empty();
    assert_eq!(e, Position { yes_amount: 0, no_amount: 0, claimed: false });
    assert!(e.is_empty());
    assert_eq!(e.total(), Ok(0));
    let p = position(40, 2);
    assert!(!p.is_empty());
    assert_eq!(p.total(), Ok(42));
    assert!(!position(0, 1).is_empty());
    assert_eq!(position(i128::MAX, 1).total(), Err(Error::Overflow));
    assert_eq!(position(i128::MIN, -1).total(), Err(Error::Overflow));
}

#[test]
fn payout_rounds_toward_zero_for_any_pools() {
    // A negative YES pool still pays by the formula, rounded toward zero:
    // 2 * 7 / -3 = -4 and -1 * 7 / -3 = 2.
    let m = market_fixture(-3, 10, MarketStatus::Resolved, MarketOutcome::Yes);
    assert_eq!(claimable_amount(&m, &position(2, 0)), Ok(-4));
    assert_eq!(claimable_amount(&m, &position(-1, 0)), Ok(2));
    assert!(!payout_division_overflows_for(&m, &position(2, 0)));
}

#[test]
fn payout_division_overflow_is_detected() {
    // Winning pool -1 and stake * whole pool == i128::MIN: the one division
    // that overflows.
    let m = market_fixture(-1, 2, MarketStatus::Resolved, MarketOutcome::Yes);
    assert!(payout_division_overflows_for(&m, &position(i128::MIN, 0)));
    let claimed = Position { yes_amount: i128::MIN, no_amount: 0, claimed: true };
    assert!(!payout_division_overflows_for(&m, &claimed));
    assert!(!payout_division_overflows_for(&m, &position(i128::MIN + 1, 0)));
    let refund = market_fixture(-1, 2, MarketStatus::Invalid, MarketOutcome::Invalid);
    assert!(!payout_division_overflows_for(&refund, &position(i128::MIN, 0)));
}

#[test]
fn rounding_loss_below_one_per_winner_concrete() {
    // Pool 10, winning pool 7 over three winners: 2*10/7 = 2, 2*10/7 = 2,
    // 3*10/7 = 4; paid 8, loss 2 < 3 winners.
    let m = market_fixture(7, 3, MarketStatus::Resolved, MarketOutcome::Yes);
    let positions = [position(2, 0), position(2, 1), position(3, 0), position(0, 2)];
    let paid: i128 = positions.iter().map(|p| claimable_amount(&m, p).unwrap_or(0)).sum();
    assert_eq!(paid, 8);
    assert!(m.yes_pool + m.no_pool - paid < 3);
}

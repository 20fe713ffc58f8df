//! Edge cases of the arithmetic, and the laws on concrete values.

use blend_leverage::constants::{SCALAR_12, SCALAR_7};
use blend_leverage::error::StrategyError;
use blend_leverage::leverage::{
    compute_equity, compute_health_factor, compute_loop_pairs, compute_step, compute_totals,
    compute_unwind_loops, loop_step_count, shares_to_underlying, underlying_to_shares, MAX_LOOPS,
};
use blend_leverage::types::LeverageReserves;

fn reserves(shares: i128, b: i128, d: i128) -> LeverageReserves {
    LeverageReserves {
        total_shares: shares,
        total_b_tokens: b,
        total_d_tokens: d,
        b_rate: SCALAR_12,
        d_rate: SCALAR_12,
    }
}

// The leverage loop

#[test]
fn step_rounds_toward_zero() {
    assert_eq!(compute_step(15, 5_000_000, false), (15, 7));
    assert_eq!(compute_step(-15, 5_000_000, false), (-15, -7));
    assert_eq!(compute_step(15, -5_000_000, false), (15, -7));
    assert_eq!(compute_step(15, 5_000_000, true), (15, 0));
}

#[test]
fn step_that_overflows_borrows_nothing() {
    assert_eq!(compute_step(i128::MAX, 2, false), (i128::MAX, 0));
    assert_eq!(compute_step(i128::MIN, -1, false), (i128::MIN, 0));
    assert_eq!(compute_step(i128::MAX, 1, false), (i128::MAX, i128::MAX / SCALAR_7));
}

#[test]
fn step_count_is_capped() {
    assert_eq!(MAX_LOOPS, 20);
    assert_eq!(loop_step_count(0), 1);
    assert_eq!(loop_step_count(19), 20);
    assert_eq!(loop_step_count(20), 21);
    assert_eq!(loop_step_count(21), 21);
    assert_eq!(loop_step_count(u32::MAX - 1), 21);
}

#[test]
fn more_than_twenty_rounds_are_twenty() {
    assert_eq!(
        compute_totals(1_000_0000000, 9_500_000, 20),
        compute_totals(1_000_0000000, 9_500_000, 1_000)
    );
    let (supplies, borrows, count) = compute_loop_pairs(1_000_0000000, 9_500_000, 1_000);
    let (supplies_20, borrows_20, _) = compute_loop_pairs(1_000_0000000, 9_500_000, 20);
    assert_eq!(count, 21);
    assert_eq!(supplies, supplies_20);
    assert_eq!(borrows, borrows_20);
    assert_eq!(borrows[20], 0);
}

#[test]
fn rounds_past_the_last_are_zero() {
    let (supplies, borrows, count) = compute_loop_pairs(1_000, 5_000_000, 2);
    assert_eq!(count, 3);
    assert_eq!(supplies[..4], [1_000, 500, 250, 0]);
    assert_eq!(borrows[..4], [500, 250, 0, 0]);
    assert!(supplies[3..].iter().all(|s| *s == 0));
    assert!(borrows[3..].iter().all(|b| *b == 0));
}

#[test]
fn totals_leave_out_what_overflows() {
    // The second round supplies a little more than fits, so the total supply goes without it.
    let (supply, borrow) = compute_totals(i128::MAX, 1, 1);
    assert_eq!(supply, i128::MAX);
    assert_eq!(borrow, i128::MAX / SCALAR_7);

    // The product overflows, so nothing is borrowed, and the deposit stands alone.
    assert_eq!(compute_totals(1 << 126, SCALAR_7, 3), (1 << 126, 0));
}

#[test]
fn totals_net_to_the_deposit_for_any_factor() {
    // Negative factors alternate, factors above one grow.
    assert_eq!(compute_totals(100, -5_000_000, 2), (100 - 50 + 25, -50 + 25));
    assert_eq!(compute_totals(100, 2 * SCALAR_7, 3), (100 + 200 + 400 + 800, 200 + 400 + 800));
    for c in [-SCALAR_7, -1, 0, 1, SCALAR_7, 3 * SCALAR_7, i128::MAX] {
        for deposit in [-1_i128 << 126, -7, 0, 7, 1 << 100, 1 << 126] {
            let (supply, borrow) = compute_totals(deposit, c, 20);
            assert_eq!(supply - borrow, deposit);
        }
    }
}

#[test]
fn leverage_follows_the_geometric_series() {
    // c = 1/2 divides exactly: (1 - c^(m+1)) / (1 - c) of 2^20 is 2^21 - 2^(20-m).
    for m in 0..=20u32 {
        let (supply, borrow) = compute_totals(1 << 20, SCALAR_7 / 2, m);
        assert_eq!(supply, (1 << 21) - (1 << (20 - m)));
        assert_eq!(supply - borrow, 1 << 20);
    }
}

#[test]
fn rounds_shrink_and_stay_near_the_powers() {
    // 0 <= deposit * c^i - supply_i <= i, with c = 3/4 written out.
    let (supplies, borrows, count) = compute_loop_pairs(1_000_003, 7_500_000, 20);
    for i in 0..count as usize {
        let power = 1_000_003 * 3_i128.pow(i as u32);
        let unit = 4_i128.pow(i as u32);
        assert!(supplies[i] * unit <= power && power <= (supplies[i] + i as i128) * unit);
        assert!(0 <= borrows[i] && borrows[i] <= supplies[i]);
    }
}

// Equity and shares

#[test]
fn equity_rounds_each_side_down() {
    let r = LeverageReserves {
        total_shares: 1,
        total_b_tokens: 3,
        total_d_tokens: 1,
        b_rate: SCALAR_12 / 2,
        d_rate: SCALAR_12 / 2,
    };
    assert_eq!(compute_equity(&r), Ok(1));
    let negative = LeverageReserves { total_b_tokens: -3, ..r };
    assert_eq!(compute_equity(&negative), Ok(-2));
}

#[test]
fn equity_errors() {
    let over = LeverageReserves { b_rate: i128::MAX, ..reserves(1, 2, 0) };
    assert_eq!(compute_equity(&over), Err(StrategyError::ArithmeticError));
    let debt_over = LeverageReserves { d_rate: i128::MAX, ..reserves(1, 0, 2) };
    assert_eq!(compute_equity(&debt_over), Err(StrategyError::ArithmeticError));
    // Each side fits, but a product that does leaves room for their difference.
    let wide = LeverageReserves { b_rate: 1, d_rate: 1, ..reserves(1, i128::MAX, i128::MIN) };
    assert_eq!(
        compute_equity(&wide),
        Ok(i128::MAX / SCALAR_12 + i128::MAX / SCALAR_12 + 1)
    );
}

#[test]
fn shares_are_worth_nothing_without_equity() {
    assert_eq!(shares_to_underlying(100, &reserves(0, 1_000, 0)), Ok(0));
    assert_eq!(shares_to_underlying(100, &reserves(1_000, 500, 500)), Ok(0));
    assert_eq!(shares_to_underlying(100, &reserves(1_000, 500, 501)), Ok(0));
    assert_eq!(underlying_to_shares(100, &reserves(1_000, 500, 500)), Ok(100));
    assert_eq!(underlying_to_shares(100, &reserves(1_000, 0, 0)), Ok(100));
    assert_eq!(underlying_to_shares(-100, &reserves(0, 500, 0)), Ok(-100));
}

#[test]
fn share_conversions_round_down() {
    let r = reserves(3, 10, 0);
    assert_eq!(shares_to_underlying(1, &r), Ok(3));
    assert_eq!(shares_to_underlying(2, &r), Ok(6));
    assert_eq!(shares_to_underlying(3, &r), Ok(10));
    assert_eq!(shares_to_underlying(-1, &r), Ok(-4));
    assert_eq!(underlying_to_shares(10, &r), Ok(3));
    assert_eq!(underlying_to_shares(9, &r), Ok(2));
    assert_eq!(underlying_to_shares(-1, &r), Ok(-1));
}

#[test]
fn share_conversions_overflow() {
    let r = reserves(3, 10, 0);
    assert_eq!(shares_to_underlying(i128::MAX, &r), Err(StrategyError::ArithmeticError));
    assert_eq!(underlying_to_shares(i128::MAX, &r), Err(StrategyError::ArithmeticError));
    let bad = LeverageReserves { b_rate: i128::MAX, ..r };
    assert_eq!(shares_to_underlying(1, &bad), Err(StrategyError::ArithmeticError));
    assert_eq!(underlying_to_shares(1, &bad), Err(StrategyError::ArithmeticError));
}

#[test]
fn negative_share_totals_round_down_too() {
    // floor(1 * 10 / -3) = -4
    assert_eq!(shares_to_underlying(1, &reserves(-3, 10, 0)), Ok(-4));
    // floor(-1 * 10 / -3) = 3
    assert_eq!(shares_to_underlying(-1, &reserves(-3, 10, 0)), Ok(3));
}

#[test]
fn all_shares_own_all_equity() {
    let r = reserves(7, 1_000, 3);
    assert_eq!(shares_to_underlying(7, &r), compute_equity(&r));
    assert_eq!(underlying_to_shares(997, &r), Ok(7));
}

#[test]
fn splitting_shares_gains_nothing() {
    let r = reserves(7, 1_000, 0);
    for a in 0..7 {
        for b in 0..7 {
            let parts = shares_to_underlying(a, &r).unwrap() + shares_to_underlying(b, &r).unwrap();
            let whole = shares_to_underlying(a + b, &r).unwrap();
            assert!(parts <= whole && whole <= parts + 1);
        }
    }
}

#[test]
fn roundtrips_never_gain() {
    let r = reserves(7, 1_000, 0);
    for x in 0..1_000 {
        let back = shares_to_underlying(underlying_to_shares(x, &r).unwrap(), &r).unwrap();
        assert!(back <= x && (x - back) * 7 < 1_000 + 7);
    }
}

#[test]
fn share_roundtrips_never_gain() {
    let r = reserves(1_000, 7, 0);
    for shares in 0..1_000 {
        let back = underlying_to_shares(shares_to_underlying(shares, &r).unwrap(), &r).unwrap();
        assert!(back <= shares && (shares - back) * 7 < 7 + 1_000);
    }
}

#[test]
fn value_grows_with_shares_within_equity() {
    let r = reserves(9, 1_000, 17);
    let mut last = 0;
    for shares in 0..=9 {
        let value = shares_to_underlying(shares, &r).unwrap();
        assert!(last <= value && value <= 983);
        last = value;
    }
}

// Health factor

#[test]
fn health_factor_edges() {
    // Debt that is worth nothing.
    assert_eq!(compute_health_factor(5, 1, SCALAR_12, 1, SCALAR_7), Ok(i128::MAX));
    // No debt outranks a supply that overflows.
    assert_eq!(compute_health_factor(i128::MAX, 0, i128::MAX, 1, 1), Ok(i128::MAX));
    assert_eq!(
        compute_health_factor(i128::MAX, 1, SCALAR_12, SCALAR_12, 1),
        Err(StrategyError::ArithmeticError)
    );
    assert_eq!(
        compute_health_factor(1, i128::MAX, SCALAR_12, SCALAR_12, 1),
        Err(StrategyError::ArithmeticError)
    );
    assert_eq!(
        compute_health_factor(10, 1, SCALAR_12, SCALAR_12, i128::MAX),
        Err(StrategyError::ArithmeticError)
    );
    // Rounded toward zero.
    assert_eq!(compute_health_factor(-7, 2, SCALAR_12, SCALAR_12, 1), Ok(-3));
    // The one quotient that does not fit.
    assert_eq!(
        compute_health_factor(1, -1, SCALAR_12, SCALAR_12, i128::MIN),
        Err(StrategyError::DivisionByZero)
    );
}

#[test]
fn health_factor_thresholds() {
    // HF >= t exactly where supply * c >= t * debt.
    let c = 9_500_000;
    for b in 9_990..10_010_i128 {
        let hf = compute_health_factor(b, 9_500, SCALAR_12, SCALAR_12, c).unwrap();
        assert_eq!(hf >= SCALAR_7, b * c >= SCALAR_7 * 9_500);
    }
}

#[test]
fn health_factor_is_monotone() {
    let hf = |b: i128, d: i128| {
        compute_health_factor(b, d, 1_100_000_000_000, 1_300_000_000_000, 9_500_000).unwrap()
    };
    for x in 0..200 {
        assert!(hf(x, 100) <= hf(x + 1, 100));
        assert!(hf(100, x) >= hf(100, x + 1));
        // Without debt more supply changes nothing.
        assert_eq!(hf(x, 0), hf(x + 1, 0));
    }
    assert_eq!(hf(100, 0), i128::MAX);
}

// Unwinding

#[test]
fn unwinding_counts() {
    // 1000 against 950: HF = 1.0, and peeling 5% of the debt raises it slowly.
    let loops = compute_unwind_loops(
        1_000_0000000, 950_0000000, SCALAR_12, SCALAR_12, 9_500_000, 10_000_001,
    );
    assert_eq!(loops, Ok(1));
}

#[test]
fn unwinding_without_layers_left() {
    // A collateral factor of one leaves nothing to peel.
    assert_eq!(compute_unwind_loops(1, 1, SCALAR_12, SCALAR_12, SCALAR_7, 10_000_001), Ok(1));
    // Nineteen layers of one token each, and then none.
    assert_eq!(
        compute_unwind_loops(38, 38, SCALAR_12, SCALAR_12, 9_500_000, 10_500_000),
        Ok(20)
    );
    // Twenty layers of one token each, and then none: the cap holds here too.
    assert_eq!(
        compute_unwind_loops(39, 39, SCALAR_12, SCALAR_12, 9_500_000, 10_500_000),
        Ok(20)
    );
}

#[test]
fn unwinding_is_capped() {
    assert_eq!(
        compute_unwind_loops(
            1_000_0000000, 1_000_0000000, SCALAR_12, SCALAR_12, 9_500_000, 10_500_000,
        ),
        Ok(20)
    );
}

#[test]
fn unwinding_errors() {
    assert_eq!(
        compute_unwind_loops(i128::MAX, 1, SCALAR_12, SCALAR_12, 1, 1),
        Err(StrategyError::ArithmeticError)
    );
    // The debt is worth little, but a layer of it cannot be computed.
    assert_eq!(
        compute_unwind_loops(0, i128::MAX / 2, 1, 1, 1, 1),
        Err(StrategyError::ArithmeticError)
    );
    // Without debt the factor does not matter.
    assert_eq!(compute_unwind_loops(1, 0, 1, 1, i128::MIN, 5), Ok(0));
    // Nor where the health factor is reached already.
    assert_eq!(compute_unwind_loops(0, 5, SCALAR_12, SCALAR_12, i128::MIN, 0), Ok(0));
}

#[test]
fn peeling_keeps_the_difference() {
    // Par rates: every layer leaves supply minus debt as it is and raises the health factor.
    let (mut b, mut d) = (10_499_0000000_i128, 9_500_0000000_i128);
    let c = 9_500_000_i128;
    let mut hf = compute_health_factor(b, d, SCALAR_12, SCALAR_12, c).unwrap();
    for _ in 0..20 {
        let layer = d * (SCALAR_7 - c) / SCALAR_7;
        b -= layer;
        d -= layer;
        assert_eq!(b - d, 999_0000000);
        let next = compute_health_factor(b, d, SCALAR_12, SCALAR_12, c).unwrap();
        assert!(next >= hf);
        hf = next;
    }
}

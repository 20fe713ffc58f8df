//! Leverage math, equity, share values, health factors and unwinding.

use blend_leverage::constants::{SCALAR_12, SCALAR_7};
use blend_leverage::leverage::{
    compute_equity, compute_health_factor, compute_loop_pairs, compute_totals,
    compute_unwind_loops, shares_to_underlying, underlying_to_shares,
};
use blend_leverage::types::LeverageReserves;

// compute_loop_pairs

#[test]
fn test_loop_pairs_basic_3_loops() {
    // c_factor = 0.95 (9_500_000 in 1e7), initial = 1000_0000000 (1000 USDC in 7 dec)
    let initial = 1_000_0000000_i128;
    let c_factor = 9_500_000_i128;
    let (supplies, borrows, count) = compute_loop_pairs(initial, c_factor, 3);

    assert_eq!(count, 4); // 3 loops + 1 final supply

    // Loop 0: supply 1000, borrow 1000*0.95 = 950
    assert_eq!(supplies[0], 1_000_0000000);
    assert_eq!(borrows[0], 950_0000000);

    // Loop 1: supply 950, borrow 950*0.95 = 902.5
    assert_eq!(supplies[1], 950_0000000);
    assert_eq!(borrows[1], 902_5000000);

    // Loop 2: supply 902.5, borrow 902.5*0.95 = 857.375
    assert_eq!(supplies[2], 902_5000000);
    assert_eq!(borrows[2], 857_3750000);

    // Final: supply 857.375, borrow 0
    assert_eq!(supplies[3], 857_3750000);
    assert_eq!(borrows[3], 0);
}

#[test]
fn test_loop_pairs_zero_loops() {
    let (supplies, borrows, count) = compute_loop_pairs(1_000_0000000, 9_500_000, 0);
    assert_eq!(count, 1);
    assert_eq!(supplies[0], 1_000_0000000);
    assert_eq!(borrows[0], 0);
}

#[test]
fn test_loop_pairs_one_loop() {
    let initial = 100_0000000_i128;
    let c_factor = 9_500_000_i128;
    let (supplies, borrows, count) = compute_loop_pairs(initial, c_factor, 1);
    assert_eq!(count, 2);
    assert_eq!(supplies[0], 100_0000000);
    assert_eq!(borrows[0], 95_0000000);
    assert_eq!(supplies[1], 95_0000000);
    assert_eq!(borrows[1], 0);
}

#[test]
fn test_loop_pairs_capped_at_20() {
    let (_, _, count) = compute_loop_pairs(1_000_0000000, 9_500_000, 25);
    assert_eq!(count, 21); // capped at 20 loops + 1 final = 21
}

// compute_totals

#[test]
fn test_totals_match_loop_pairs() {
    let initial = 1_000_0000000_i128;
    let c = 9_500_000_i128;
    let n = 8;

    let (total_supply, total_borrow) = compute_totals(initial, c, n);

    // Verify against manual sum of loop pairs
    let (supplies, borrows, count) = compute_loop_pairs(initial, c, n);
    let mut sum_s = 0i128;
    let mut sum_b = 0i128;
    for i in 0..count as usize {
        sum_s += supplies[i];
        sum_b += borrows[i];
    }
    assert_eq!(total_supply, sum_s);
    assert_eq!(total_borrow, sum_b);
}

#[test]
fn test_totals_leverage_ratio() {
    // With c=0.95 and 8 loops, leverage ~ (1 - 0.95^9) / (1 - 0.95) ~ 8.3
    let initial = 1_000_0000000_i128;
    let (total_supply, total_borrow) = compute_totals(initial, 9_500_000, 8);

    let leverage_x100 = total_supply * 100 / initial;
    // Leverage should be between 7 and 9
    assert!(leverage_x100 > 700 && leverage_x100 < 900,
        "Leverage {}.{} out of expected range", leverage_x100 / 100, leverage_x100 % 100);

    // Borrow should be supply - initial (equity)
    assert_eq!(total_supply - total_borrow, initial);
}

#[test]
fn test_totals_net_equals_initial() {
    // For any number of loops, total_supply - total_borrow = initial deposit
    for n in 0..15 {
        let initial = 1_000_0000000_i128;
        let (total_supply, total_borrow) = compute_totals(initial, 9_500_000, n);
        assert_eq!(total_supply - total_borrow, initial,
            "Net supply != initial at {} loops", n);
    }
}

// compute_equity

#[test]
fn test_equity_no_debt() {
    let reserves = LeverageReserves {
        total_shares: 1_000_0000000,
        total_b_tokens: 1_000_0000000,
        total_d_tokens: 0,
        b_rate: SCALAR_12, // 1:1 rate
        d_rate: SCALAR_12,
    };
    let equity = compute_equity(&reserves).unwrap();
    assert_eq!(equity, 1_000_0000000); // all supply is equity
}

#[test]
fn test_equity_with_leverage() {
    // Simulating ~2x leverage: 2000 supply, 1000 debt
    // b_rate = d_rate = 1.0 (SCALAR_12)
    let reserves = LeverageReserves {
        total_shares: 1_000_0000000,
        total_b_tokens: 2_000_0000000,
        total_d_tokens: 1_000_0000000,
        b_rate: SCALAR_12,
        d_rate: SCALAR_12,
    };
    let equity = compute_equity(&reserves).unwrap();
    assert_eq!(equity, 1_000_0000000); // 2000 - 1000 = 1000
}

#[test]
fn test_equity_with_accrued_rates() {
    // b_rate grew 5% (1.05), d_rate grew 8% (1.08)
    // Supply value = 2000 * 1.05 = 2100
    // Debt value = 1000 * 1.08 = 1080
    // Equity = 2100 - 1080 = 1020
    let b_rate = SCALAR_12 * 105 / 100; // 1.05e12
    let d_rate = SCALAR_12 * 108 / 100; // 1.08e12

    let reserves = LeverageReserves {
        total_shares: 1_000_0000000,
        total_b_tokens: 2_000_0000000,
        total_d_tokens: 1_000_0000000,
        b_rate,
        d_rate,
    };
    let equity = compute_equity(&reserves).unwrap();
    // 2000 * 1.05 - 1000 * 1.08 = 2100 - 1080 = 1020
    assert_eq!(equity, 1_020_0000000);
}

#[test]
fn test_equity_underwater() {
    // Debt has grown past supply value
    let b_rate = SCALAR_12;
    let d_rate = SCALAR_12 * 3; // 3x - debt exploded

    let reserves = LeverageReserves {
        total_shares: 1_000_0000000,
        total_b_tokens: 1_500_0000000,
        total_d_tokens: 1_000_0000000,
        b_rate,
        d_rate,
    };
    // Equity = 1500 - 3000 = -1500 (would be Err or negative)
    let result = compute_equity(&reserves);
    assert!(result.is_err() || result.unwrap() < 0);
}

// shares_to_underlying / underlying_to_shares

#[test]
fn test_shares_to_underlying_simple() {
    let reserves = LeverageReserves {
        total_shares: 1_000_0000000,
        total_b_tokens: 2_000_0000000,
        total_d_tokens: 1_000_0000000,
        b_rate: SCALAR_12,
        d_rate: SCALAR_12,
    };
    // Total equity = 1000. Full shares = full equity.
    let value = shares_to_underlying(1_000_0000000, &reserves).unwrap();
    assert_eq!(value, 1_000_0000000);

    // Half shares = half equity
    let half = shares_to_underlying(500_0000000, &reserves).unwrap();
    assert_eq!(half, 500_0000000);
}

#[test]
fn test_shares_to_underlying_zero_shares() {
    let reserves = LeverageReserves {
        total_shares: 0,
        total_b_tokens: 0,
        total_d_tokens: 0,
        b_rate: SCALAR_12,
        d_rate: SCALAR_12,
    };
    assert_eq!(shares_to_underlying(0, &reserves).unwrap(), 0);
}

#[test]
fn test_underlying_to_shares_first_deposit() {
    let reserves = LeverageReserves {
        total_shares: 0,
        total_b_tokens: 0,
        total_d_tokens: 0,
        b_rate: SCALAR_12,
        d_rate: SCALAR_12,
    };
    // First deposit: 1 share = 1 unit
    assert_eq!(underlying_to_shares(1_000_0000000, &reserves).unwrap(), 1_000_0000000);
}

#[test]
fn test_underlying_to_shares_proportional() {
    let reserves = LeverageReserves {
        total_shares: 1_000_0000000,
        total_b_tokens: 2_000_0000000,
        total_d_tokens: 1_000_0000000,
        b_rate: SCALAR_12,
        d_rate: SCALAR_12,
    };
    // Equity = 1000. Depositing 500 should get 500 shares.
    let shares = underlying_to_shares(500_0000000, &reserves).unwrap();
    assert_eq!(shares, 500_0000000);
}

#[test]
fn test_shares_roundtrip() {
    let reserves = LeverageReserves {
        total_shares: 3_000_0000000,
        total_b_tokens: 6_000_0000000,
        total_d_tokens: 3_500_0000000,
        b_rate: SCALAR_12 * 103 / 100, // 1.03
        d_rate: SCALAR_12 * 106 / 100, // 1.06
    };
    let equity = compute_equity(&reserves).unwrap();
    assert!(equity > 0);

    // Convert equity -> shares -> equity, should come back close to it
    let shares = underlying_to_shares(equity, &reserves).unwrap();
    let recovered = shares_to_underlying(shares, &reserves).unwrap();
    // Allow 1 stroop rounding
    assert!((recovered - equity).abs() <= 1,
        "Roundtrip error: equity={}, recovered={}", equity, recovered);
}

// compute_health_factor

#[test]
fn test_hf_no_debt() {
    let hf = compute_health_factor(1_000_0000000, 0, SCALAR_12, SCALAR_12, 9_500_000).unwrap();
    assert_eq!(hf, i128::MAX);
}

#[test]
fn test_hf_equal_rates() {
    // b_tokens=2000, d_tokens=1000, both rates=1.0, c_factor=0.95
    // HF = (2000 * 1.0 * 0.95) / (1000 * 1.0) = 1.9 in 1e7 = 19_000_000
    let hf = compute_health_factor(
        2_000_0000000,
        1_000_0000000,
        SCALAR_12,
        SCALAR_12,
        9_500_000,
    ).unwrap();
    // HF = supply_value * c_factor / debt_value = 2000 * 9500000 / 1000 = 19_000_000
    assert_eq!(hf, 19_000_000);
}

#[test]
fn test_hf_near_liquidation() {
    // 8x leverage: b=8000, d=7000, c=0.95
    // HF = 8000*0.95/7000 ~ 1.0857 -> 10_857_142 in 1e7
    let hf = compute_health_factor(
        8_000_0000000,
        7_000_0000000,
        SCALAR_12,
        SCALAR_12,
        9_500_000,
    ).unwrap();
    // 8000 * 9500000 / 7000 = 76000000000000000 / 7000_0000000 = 10_857_142
    assert_eq!(hf, 10_857_142);
    assert!(hf > SCALAR_7); // HF > 1.0
}

#[test]
fn test_hf_below_one() {
    // b=1000, d=1000, c=0.95 -> HF = 0.95 -> 9_500_000
    let hf = compute_health_factor(
        1_000_0000000,
        1_000_0000000,
        SCALAR_12,
        SCALAR_12,
        9_500_000,
    ).unwrap();
    assert_eq!(hf, 9_500_000);
    assert!(hf < SCALAR_7); // HF < 1.0 -> liquidatable
}

// compute_unwind_loops

#[test]
fn test_unwind_already_at_target_returns_zero() {
    // HF = 1.9 >> 1.05 -> already healthy, no unwinding needed
    let loops = compute_unwind_loops(
        2_000_0000000,
        1_000_0000000,
        SCALAR_12,
        SCALAR_12,
        9_500_000,
        10_500_000, // target_hf = 1.05
    ).unwrap();
    assert_eq!(loops, 0);
}

#[test]
fn test_unwind_healthy_position_returns_zero() {
    // HF = 1.9 >> 1.05 -> no unwinding needed
    let loops = compute_unwind_loops(
        2_000_0000000,
        1_000_0000000,
        SCALAR_12,
        SCALAR_12,
        9_500_000,
        10_500_000, // min_hf = 1.05
    ).unwrap();
    assert_eq!(loops, 0);
}

#[test]
fn test_unwind_unhealthy_position() {
    // HF just below 1.05 -> should need some unwinding
    // b=10500, d=9500, c=0.95 -> HF = 10500*0.95/9500 ~ 1.05 exactly
    // Make it slightly below: b=10499, d=9500
    let loops = compute_unwind_loops(
        10_499_0000000,
        9_500_0000000,
        SCALAR_12,
        SCALAR_12,
        9_500_000,
        10_500_000,
    ).unwrap();
    assert!(loops > 0, "Should need at least 1 unwind loop");
    assert!(loops <= 20, "Should not exceed safety cap");
}

#[test]
fn test_unwind_no_debt() {
    let loops = compute_unwind_loops(
        1_000_0000000,
        0,
        SCALAR_12,
        SCALAR_12,
        9_500_000,
        10_500_000,
    ).unwrap();
    assert_eq!(loops, 0);
}

#[test]
fn test_unwind_single_loop_position() {
    // 1-loop position: b=1950, d=950, c=0.95
    // HF = 1950 * 0.95 / 950 = 1852.5 / 950 ~ 1.95 -> healthy
    let loops = compute_unwind_loops(
        1_950_0000000,
        950_0000000,
        SCALAR_12,
        SCALAR_12,
        9_500_000,
        10_500_000,
    ).unwrap();
    assert_eq!(loops, 0, "Single-loop healthy position needs no unwind");

    // Now make it unhealthy: b=1000, d=950 -> HF = 1000*0.95/950 ~ 1.0 < 1.05
    let loops = compute_unwind_loops(
        1_000_0000000,
        950_0000000,
        SCALAR_12,
        SCALAR_12,
        9_500_000,
        10_500_000,
    ).unwrap();
    assert!(loops > 0, "Single-loop unhealthy position needs unwind");
}

#[test]
fn test_unwind_max_loops_position() {
    // 20-loop position deeply underwater: b=1000, d=999, c=0.95
    // HF = 1000*0.95/999 ~ 0.9509 < 1.05 -> needs unwinding
    let loops = compute_unwind_loops(
        1_000_0000000,
        999_0000000,
        SCALAR_12,
        SCALAR_12,
        9_500_000,
        10_500_000,
    ).unwrap();
    assert!(loops > 0, "Deeply leveraged position needs unwind");
    assert!(loops <= 20, "Should not exceed safety cap of 20");
}

#[test]
fn test_unwind_result_achieves_target_hf() {
    // Verify that after simulating `loops` unwind steps, HF >= target_hf
    let b = 10_499_0000000_i128;
    let d = 9_500_0000000_i128;
    let c = 9_500_000_i128;
    let target = 10_500_000_i128;

    let loops = compute_unwind_loops(b, d, SCALAR_12, SCALAR_12, c, target).unwrap();

    // Simulate the same steps
    let mut cb = b;
    let mut cd = d;
    for _ in 0..loops {
        let layer = cd * (SCALAR_7 - c) / SCALAR_7;
        cb -= layer;
        cd -= layer;
    }
    let final_hf = compute_health_factor(cb, cd, SCALAR_12, SCALAR_12, c).unwrap();
    assert!(final_hf >= target,
        "After {} loops, HF={} should be >= target={}", loops, final_hf, target);
}

#[test]
fn test_unwind_is_minimal() {
    // Verify that one fewer loop would NOT achieve target_hf
    let b = 10_499_0000000_i128;
    let d = 9_500_0000000_i128;
    let c = 9_500_000_i128;
    let target = 10_500_000_i128;

    let loops = compute_unwind_loops(b, d, SCALAR_12, SCALAR_12, c, target).unwrap();

    if loops > 0 {
        let mut cb = b;
        let mut cd = d;
        for _ in 0..(loops - 1) {
            let layer = cd * (SCALAR_7 - c) / SCALAR_7;
            cb -= layer;
            cd -= layer;
        }
        let hf_before_last = compute_health_factor(cb, cd, SCALAR_12, SCALAR_12, c).unwrap();
        assert!(hf_before_last < target,
            "One fewer loop ({}) should NOT achieve target: HF={}", loops - 1, hf_before_last);
    }
}

// Leverage table

#[test]
fn test_leverage_table_matches_simulator() {
    // leverage(n, c) = (1 - c^(n+1)) / (1 - c)
    let initial = 1_000_0000000_i128;
    let c = 9_500_000_i128;

    for n in 0..=13 {
        let (total_supply, _) = compute_totals(initial, c, n);
        let our_lev_x1000 = total_supply * 1000 / initial;

        // Compute expected via float formula
        let c_f = 0.95_f64;
        let expected_lev = (1.0 - c_f.powi(n as i32 + 1)) / (1.0 - c_f);
        let expected_x1000 = (expected_lev * 1000.0).round() as i128;

        // Allow 1 per mille tolerance for integer rounding
        let diff = (our_lev_x1000 - expected_x1000).abs();
        assert!(diff <= 1,
            "Loop {}: our={}.{:03}x, expected={}.{:03}x (diff={})",
            n, our_lev_x1000/1000, our_lev_x1000%1000,
            expected_x1000/1000, expected_x1000%1000, diff);
    }
}

fn make_reserves(b: i128, d: i128, shares: i128) -> LeverageReserves {
    LeverageReserves {
        total_shares: shares,
        total_b_tokens: b,
        total_d_tokens: d,
        b_rate: SCALAR_12,
        d_rate: SCALAR_12,
    }
}

// Harvest accounting

#[test]
fn test_harvest_increases_share_value() {
    // Pure math test - no storage needed
    // Start: 8000 b-tokens, 7000 d-tokens, 1000 shares, equity = 1000
    let reserves_state = make_reserves(8_000_0000000, 7_000_0000000, 1_000_0000000);

    let pre_value = shares_to_underlying(1_000_0000000, &reserves_state).unwrap();

    // Harvest adds 500 b-tokens and 400 d-tokens (net +100 equity from BLND compound)
    let mut updated = reserves_state.clone();
    updated.total_b_tokens += 500_0000000;
    updated.total_d_tokens += 400_0000000;
    // total_shares stays the same - that's the point of harvest

    let post_value = shares_to_underlying(1_000_0000000, &updated).unwrap();

    assert!(post_value > pre_value,
        "Share value should increase after harvest: pre={}, post={}", pre_value, post_value);
    assert_eq!(post_value - pre_value, 100_0000000); // +100 equity
}

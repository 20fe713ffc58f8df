//! Deposit safety.

use blend_leverage::constants::{MAX_SAFE_UTILIZATION, SCALAR_12, SCALAR_7};
use blend_leverage::error::StrategyError;
use blend_leverage::leverage::{check_deposit_safety, check_utilization};
use blend_leverage::types::{Address, Config};

fn dummy_config() -> Config {
    let dummy = Address { strkey: [b'C'; 56] };
    Config {
        asset: dummy,
        pool: dummy,
        reserve_id: 0,
        blend_token: dummy,
        router: dummy,
        claim_ids: Vec::new(),
        reward_threshold: 1,
        c_factor: 9_500_000,
        target_loops: 8,
        min_hf: 10_500_000,
        orange_hf: 11_500_000,
    }
}

/// The error as the ledger shows it.
fn shown(error: StrategyError) -> String {
    match error {
        StrategyError::ExternalError => format!(
            "{:?}",
            soroban_sdk::Error::from(defindex_strategy_core::StrategyError::ExternalError)
        ),
        other => format!("{:?}", other),
    }
}

#[test]
#[should_panic(expected = "Error(Contract, #422)")]
fn test_safety_rejects_high_utilization() {
    let config = dummy_config();

    // Pool at 96% utilization -> refused (above 95% limit)
    let result = check_deposit_safety(
        1_000_0000000, // pool supply
        960_0000000,   // pool borrow (96%)
        100_0000000,   // add supply
        50_0000000,    // add borrow
        1_000_0000000, // post b
        500_0000000,   // post d
        SCALAR_12,
        SCALAR_12,
        &config,
    );
    if let Err(error) = result {
        panic!("{}", shown(error));
    }
}

#[test]
fn test_safety_allows_healthy_pool() {
    let config = dummy_config();

    // Pool at 50% utilization, healthy HF
    let result = check_deposit_safety(
        1_000_0000000,
        500_0000000, // 50% util
        100_0000000,
        50_0000000,
        2_000_0000000, // plenty of collateral
        500_0000000,
        SCALAR_12,
        SCALAR_12,
        &config,
    );
    assert!(result.is_ok(), "Should allow at 50% utilization with healthy HF");
}

#[test]
fn utilization_is_judged_to_the_last_decimal() {
    assert_eq!(MAX_SAFE_UTILIZATION, 9_500_000);
    assert_eq!(check_utilization(SCALAR_7, 9_499_999), Ok(()));
    assert_eq!(check_utilization(SCALAR_7, 9_500_000), Err(StrategyError::ExternalError));
    // Rounded down to below the limit: 2 * 9_500_000 - 1 of 2e7.
    assert_eq!(check_utilization(2 * SCALAR_7, 18_999_999), Ok(()));
    assert_eq!(check_utilization(2 * SCALAR_7, 19_000_000), Err(StrategyError::ExternalError));
}

#[test]
fn pool_without_supply_counts_as_unused() {
    assert_eq!(check_utilization(0, i128::MAX), Ok(()));
    assert_eq!(check_utilization(-1, i128::MAX), Ok(()));
}

#[test]
fn utilization_overflow_is_an_arithmetic_error() {
    assert_eq!(check_utilization(1, i128::MAX), Err(StrategyError::ArithmeticError));
    assert_eq!(check_utilization(1, i128::MIN), Err(StrategyError::ArithmeticError));
    // Negative lending is no use at all.
    assert_eq!(check_utilization(1, -5), Ok(()));
}

#[test]
fn projected_utilization_is_judged() {
    let config = dummy_config();
    let judge = |add_supply: i128, add_borrow: i128| {
        check_deposit_safety(
            1_000_0000000,
            900_0000000,
            add_supply,
            add_borrow,
            2_000_0000000,
            500_0000000,
            SCALAR_12,
            SCALAR_12,
            &config,
        )
    };
    assert_eq!(judge(0, 49_9999000), Ok(()));
    assert_eq!(judge(0, 50_0000000), Err(StrategyError::ExternalError));
    assert_eq!(judge(i128::MAX, 0), Err(StrategyError::UnderflowOverflow));
    assert_eq!(judge(0, i128::MAX), Err(StrategyError::UnderflowOverflow));
    // Withdrawing supply until nothing is left passes the utilization check.
    assert_eq!(judge(-1_000_0000000, 0), Ok(()));
}

#[test]
fn health_after_the_deposit_is_judged() {
    let config = dummy_config();
    let judge = |b: i128, d: i128, b_rate: i128| {
        check_deposit_safety(
            1_000_0000000,
            500_0000000,
            0,
            0,
            b,
            d,
            b_rate,
            SCALAR_12,
            &config,
        )
    };
    // HF = b * 0.95 / d, just above the minimum of 1.05, at it and just below.
    assert_eq!(judge(10_501, 9_500, SCALAR_12), Ok(()));
    assert_eq!(judge(10_500, 9_500, SCALAR_12), Err(StrategyError::ExternalError));
    assert_eq!(judge(10_499, 9_500, SCALAR_12), Err(StrategyError::ExternalError));
    assert_eq!(judge(10_499, 0, SCALAR_12), Ok(()));
    assert_eq!(judge(i128::MAX, 9_500, SCALAR_12), Err(StrategyError::ArithmeticError));
}

#[test]
fn objections_come_in_order() {
    let mut config = dummy_config();
    config.min_hf = i128::MAX;
    // Too much use now outranks sums that overflow and a poor health factor.
    let judge = |supply: i128, borrow: i128, add: i128| {
        check_deposit_safety(supply, borrow, add, 0, 1, 1, SCALAR_12, SCALAR_12, &config)
    };
    assert_eq!(judge(100, 96, i128::MAX), Err(StrategyError::ExternalError));
    assert_eq!(judge(100, 50, i128::MAX), Err(StrategyError::UnderflowOverflow));
    assert_eq!(judge(100, i128::MAX, 1), Err(StrategyError::ArithmeticError));
    assert_eq!(judge(100, 50, 1), Err(StrategyError::ExternalError));
}

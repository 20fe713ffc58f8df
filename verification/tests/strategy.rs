//! The calls of the strategy.

use blend_leverage::constants::SCALAR_12;
use blend_leverage::error::StrategyError;
use blend_leverage::strategy::deposit::{project_tokens, DepositState};
use blend_leverage::strategy::harvest::{parse_min_out, HarvestState};
use blend_leverage::strategy::init::{InitArg, InitArgs, InitError};
use blend_leverage::strategy::keeper::KeeperState;
use blend_leverage::strategy::queries::BalanceState;
use blend_leverage::strategy::requests::{Market, PoolPosition, Reply, Request, Withdrawal};
use blend_leverage::strategy::unwinding::UnwindState;
use blend_leverage::strategy::withdraw::WithdrawState;
use blend_leverage::strategy::{check_positive_amount, BlendLeverageStrategy};
use blend_leverage::types::{Address, Config, LeverageReserves};

fn address(n: u8) -> Address {
    Address { strkey: [n; 56] }
}

fn config() -> Config {
    Config {
        asset: address(1),
        pool: address(2),
        reserve_id: 0,
        blend_token: address(3),
        router: address(4),
        claim_ids: vec![1, 0],
        reward_threshold: 1,
        c_factor: 9_500_000,
        target_loops: 8,
        min_hf: 10_500_000,
        orange_hf: 11_500_000,
    }
}

fn reserves(b: i128, d: i128, shares: i128) -> LeverageReserves {
    LeverageReserves {
        total_shares: shares,
        total_b_tokens: b,
        total_d_tokens: d,
        b_rate: SCALAR_12,
        d_rate: SCALAR_12,
    }
}

fn market(pool_borrow: i128) -> Market {
    Market {
        config: config(),
        reserves: reserves(0, 0, 0),
        pool_supply: 1_000_000_0000000,
        pool_borrow,
        b_rate: SCALAR_12,
        d_rate: SCALAR_12,
    }
}

#[test]
fn addresses_are_compared_whole() {
    let mut other = address(7);
    assert!(address(7).same_as(&other));
    other.strkey[55] = 8;
    assert!(!address(7).same_as(&other));
}

#[test]
fn only_positive_amounts() {
    assert_eq!(check_positive_amount(1), Ok(()));
    assert_eq!(check_positive_amount(0), Err(StrategyError::OnlyPositiveAmountAllowed));
    assert_eq!(check_positive_amount(i128::MIN), Err(StrategyError::OnlyPositiveAmountAllowed));
}

// Deposits

#[test]
fn projected_tokens() {
    assert_eq!(project_tokens(10, 6, 2 * SCALAR_12), 13);
    assert_eq!(project_tokens(10, 7, 2 * SCALAR_12), 13);
    // A rate of less than one counts as one.
    assert_eq!(project_tokens(10, 5, 0), 10 + 5 * SCALAR_12);
    assert_eq!(project_tokens(10, 5, -3), 10 + 5 * SCALAR_12);
    // An amount too great to scale counts as nothing, a sum that overflows is not made.
    assert_eq!(project_tokens(10, i128::MAX, 1), 10);
    assert_eq!(project_tokens(i128::MAX, 1, SCALAR_12), i128::MAX);
}

#[test]
fn deposit_runs_through() {
    let from = address(9);
    let amount = 1_000_0000000;
    let state = BlendLeverageStrategy::deposit(amount, from);
    assert_eq!(state.request(), Some(Request::Authorize(from)));
    let state = state.step(Reply::Done);
    assert_eq!(state.request(), Some(Request::ReadMarket));
    let state = state.step(Reply::Market(market(0)));
    assert_eq!(state.request(), Some(Request::Transfer { from, amount }));
    let state = state.step(Reply::Done);
    assert_eq!(state.request(), Some(Request::SubmitLoop { amount }));
    let state = state.step(Reply::Tokens(Ok((8_000_0000000, 7_000_0000000))));
    assert_eq!(
        state.request(),
        Some(Request::MintShares {
            to: from,
            b_delta: 8_000_0000000,
            d_delta: 7_000_0000000,
            reserves: reserves(0, 0, 0),
        })
    );
    let after = reserves(8_000_0000000, 7_000_0000000, 1_000_0000000);
    let state = state.step(Reply::Minted(Ok((999_9999000, after))));
    assert_eq!(state.request(), Some(Request::AnnounceDeposit { amount, from }));
    let state = state.step(Reply::Done);
    assert_eq!(state, DepositState::Finished(Ok(999_9999000)));
    assert_eq!(state.request(), None);
    // Over is over.
    assert_eq!(state.step(Reply::Done), DepositState::Finished(Ok(999_9999000)));
}

#[test]
fn deposit_of_nothing_is_refused() {
    for amount in [0, -1] {
        let state = BlendLeverageStrategy::deposit(amount, address(9));
        assert_eq!(
            state,
            DepositState::Finished(Err(StrategyError::OnlyPositiveAmountAllowed))
        );
        assert_eq!(state.request(), None);
    }
}

#[test]
fn unsafe_deposit_moves_nothing() {
    let read = || BlendLeverageStrategy::deposit(1_000_0000000, address(9)).step(Reply::Done);
    // 96% of the pool is lent out already.
    assert_eq!(
        read().step(Reply::Market(market(960_000_0000000))),
        DepositState::Finished(Err(StrategyError::ExternalError))
    );
    // The minimum health factor is out of reach.
    let mut strict = market(0);
    strict.config.min_hf = i128::MAX;
    assert_eq!(
        read().step(Reply::Market(strict)),
        DepositState::Finished(Err(StrategyError::ExternalError))
    );
    // The projected position is one in which the loop counts in full: 8 rounds at 0.95 give
    // about 7.4 times the deposit in supply and 6.4 times in debt.
    let mut exact = market(0);
    exact.config.min_hf = 10_985_531;
    assert_eq!(exact.judge(1_000_0000000), Ok(()));
    exact.config.min_hf = 10_985_532;
    assert_eq!(exact.judge(1_000_0000000), Err(StrategyError::ExternalError));
}

#[test]
fn deposit_ignores_replies_out_of_turn() {
    let from = address(9);
    let start = || BlendLeverageStrategy::deposit(5, from);
    assert_eq!(start().step(Reply::Market(market(0))), start());
    assert_eq!(start().step(Reply::Tokens(Ok((1, 1)))), start());
    assert_eq!(start().step(Reply::Done).step(Reply::Done), start().step(Reply::Done));
}

#[test]
fn deposit_passes_errors_on() {
    let looping = || {
        BlendLeverageStrategy::deposit(1_000_0000000, address(9))
            .step(Reply::Done)
            .step(Reply::Market(market(0)))
            .step(Reply::Done)
    };
    assert_eq!(
        looping().step(Reply::Tokens(Err(StrategyError::SupplyNotFound))),
        DepositState::Finished(Err(StrategyError::SupplyNotFound))
    );
    let minting = || looping().step(Reply::Tokens(Ok((1, 0))));
    assert_eq!(
        minting().step(Reply::Minted(Err(StrategyError::InvalidSharesMinted))),
        DepositState::Finished(Err(StrategyError::InvalidSharesMinted))
    );
    assert_eq!(
        minting().step(Reply::Minted(Ok((i128::MAX, reserves(10, 0, 3))))),
        DepositState::Finished(Err(StrategyError::ArithmeticError))
    );
}

// Withdrawals

#[test]
fn withdrawal_runs_through() {
    let (from, to) = (address(9), address(10));
    let amount = 500_0000000;
    let before = reserves(8_000_0000000, 7_000_0000000, 1_000_0000000);
    let state = BlendLeverageStrategy::withdraw(amount, from, to);
    assert_eq!(state.request(), Some(Request::Authorize(from)));
    let state = state.step(Reply::Done);
    assert_eq!(state.request(), Some(Request::ReadReserves));
    let state = state.step(Reply::Reserves(before));
    assert_eq!(state.request(), Some(Request::BurnShares { from, amount, reserves: before }));
    let released = Withdrawal {
        remaining_shares: 500_0000000,
        b_tokens: 4_000_0000000,
        d_tokens: 3_500_0000000,
        reserves: reserves(4_000_0000000, 3_500_0000000, 500_0000000),
    };
    let state = state.step(Reply::Burned(Ok(released)));
    assert_eq!(
        state.request(),
        Some(Request::SubmitUnwind { b_tokens: 4_000_0000000, d_tokens: 3_500_0000000, to })
    );
    let state = state.step(Reply::Settled(Ok(())));
    assert_eq!(state.request(), Some(Request::AnnounceWithdraw { amount, from }));
    let state = state.step(Reply::Done);
    assert_eq!(state, WithdrawState::Finished(Ok(500_0000000)));
    assert_eq!(state.request(), None);
}

#[test]
fn withdrawal_errors() {
    let (from, to) = (address(9), address(10));
    assert_eq!(
        BlendLeverageStrategy::withdraw(0, from, to),
        WithdrawState::Finished(Err(StrategyError::OnlyPositiveAmountAllowed))
    );
    let burning = || {
        BlendLeverageStrategy::withdraw(5, from, to)
            .step(Reply::Done)
            .step(Reply::Reserves(reserves(10, 0, 10)))
    };
    assert_eq!(
        burning().step(Reply::Burned(Err(StrategyError::InsufficientBalance))),
        WithdrawState::Finished(Err(StrategyError::InsufficientBalance))
    );
    let released = Withdrawal {
        remaining_shares: i128::MAX,
        b_tokens: 5,
        d_tokens: 0,
        reserves: reserves(5, 0, 5),
    };
    let unwinding = || burning().step(Reply::Burned(Ok(released)));
    assert_eq!(
        unwinding().step(Reply::Settled(Err(StrategyError::ExternalError))),
        WithdrawState::Finished(Err(StrategyError::ExternalError))
    );
    assert_eq!(
        unwinding().step(Reply::Settled(Ok(()))),
        WithdrawState::Finished(Err(StrategyError::ArithmeticError))
    );
    assert_eq!(burning().step(Reply::Done), burning());
}

// Harvests

#[test]
fn harvest_data_are_big_endian() {
    assert_eq!(parse_min_out(&None), 0);
    assert_eq!(parse_min_out(&Some(Vec::new())), 0);
    for value in [0, 1, -1, 255, 256, 1 << 100, -(1 << 100), i128::MAX, i128::MIN] {
        assert_eq!(parse_min_out(&Some(value.to_be_bytes().to_vec())), value);
    }
}

#[test]
fn harvest_runs_through() {
    let keeper = address(5);
    let state = BlendLeverageStrategy::harvest(keeper, Some(77_i128.to_be_bytes().to_vec()));
    assert_eq!(state.request(), Some(Request::ReadKeeper));
    let state = state.step(Reply::Keeper(keeper));
    assert_eq!(state.request(), Some(Request::Authorize(keeper)));
    let state = state.step(Reply::Done);
    assert_eq!(state.request(), Some(Request::Claim));
    let state = state.step(Reply::Claimed(1_234));
    assert_eq!(state.request(), Some(Request::Reinvest { amount_out_min: 77 }));
    let state = state.step(Reply::Tokens(Ok((500, 400))));
    assert_eq!(state.request(), Some(Request::RecordHarvest { b_delta: 500, d_delta: 400 }));
    let state = state.step(Reply::Recorded(Ok(reserves(8_500, 7_400, 1_000))));
    assert_eq!(
        state.request(),
        Some(Request::AnnounceHarvest {
            amount: 1_234,
            keeper,
            price_per_share: SCALAR_12 * 11 / 10,
        })
    );
    let state = state.step(Reply::Done);
    assert_eq!(state, HarvestState::Finished(Ok(())));
    assert_eq!(state.request(), None);
}

#[test]
fn harvest_is_for_the_keeper_only() {
    let state = BlendLeverageStrategy::harvest(address(6), None)
        .step(Reply::Keeper(address(5)))
        .step(Reply::Done);
    assert_eq!(state, HarvestState::Finished(Err(StrategyError::NotAuthorized)));
}

#[test]
fn harvest_without_gain_records_nothing() {
    let reinvesting = || {
        BlendLeverageStrategy::harvest(address(5), None)
            .step(Reply::Keeper(address(5)))
            .step(Reply::Done)
            .step(Reply::Claimed(0))
    };
    assert_eq!(reinvesting().request(), Some(Request::Reinvest { amount_out_min: 0 }));
    assert_eq!(reinvesting().step(Reply::Tokens(Ok((0, 5)))), HarvestState::Finished(Ok(())));
    assert_eq!(
        reinvesting().step(Reply::Tokens(Err(StrategyError::InternalSwapError))),
        HarvestState::Finished(Err(StrategyError::InternalSwapError))
    );
    let recording = || reinvesting().step(Reply::Tokens(Ok((1, 0))));
    assert_eq!(
        recording().step(Reply::Recorded(Err(StrategyError::UnderflowOverflow))),
        HarvestState::Finished(Err(StrategyError::UnderflowOverflow))
    );
    assert_eq!(
        recording().step(Reply::Recorded(Ok(reserves(i128::MAX, 0, 3)))),
        HarvestState::Finished(Err(StrategyError::ArithmeticError))
    );
    assert_eq!(recording().step(Reply::Done), recording());
}

// Unwinding

fn pool_position(b_tokens: i128, d_tokens: i128) -> PoolPosition {
    PoolPosition { b_tokens, d_tokens, b_rate: SCALAR_12, d_rate: SCALAR_12 }
}

#[test]
fn unwinding_plan() {
    // No debt, healthy, in the orange zone but above the minimum, below the minimum.
    assert_eq!(pool_position(5, 0).plan(&config()), Ok(0));
    assert_eq!(pool_position(2_000_0000000, 1_000_0000000).plan(&config()), Ok(0));
    assert_eq!(pool_position(10_500_0000000, 9_500_0000000).plan(&config()), Ok(0));
    assert_eq!(pool_position(10_499_0000000, 9_500_0000000).plan(&config()), Ok(1));
    assert_eq!(
        pool_position(i128::MAX, 1).plan(&config()),
        Err(StrategyError::ArithmeticError)
    );
    // A minimum above the orange-zone threshold does not matter from the threshold on.
    let mut odd = config();
    odd.min_hf = 30_000_000;
    assert_eq!(pool_position(2_000_0000000, 1_000_0000000).plan(&odd), Ok(0));
}

#[test]
fn rebalancing_runs_through() {
    let state = BlendLeverageStrategy::rebalance();
    assert_eq!(state.request(), Some(Request::ReadPosition));
    let position = pool_position(10_499_0000000, 9_500_0000000);
    let state = state.step(Reply::Position(config(), position));
    assert_eq!(state.request(), Some(Request::SubmitDeleverage { loops: 1 }));
    let state = state.step(Reply::Tokens(Ok((475_0000000, 475_0000000))));
    assert_eq!(
        state.request(),
        Some(Request::RecordDeleverage { b_removed: 475_0000000, d_removed: 475_0000000 })
    );
    let state = state.step(Reply::Settled(Ok(())));
    assert_eq!(state, UnwindState::Rebalanced(Ok(())));
    assert_eq!(state.request(), None);
}

#[test]
fn partial_unwinding_answers_its_number() {
    let caller = address(8);
    let state = BlendLeverageStrategy::partial_unwind(caller);
    assert_eq!(state.request(), Some(Request::Authorize(caller)));
    let state = state.step(Reply::Done);
    assert_eq!(state.request(), Some(Request::ReadPosition));
    let state = state
        .step(Reply::Position(config(), pool_position(10_499_0000000, 9_500_0000000)))
        .step(Reply::Tokens(Ok((475_0000000, 475_0000000))))
        .step(Reply::Settled(Ok(())));
    assert_eq!(state, UnwindState::Unwound(Ok(1)));
    assert_eq!(state.request(), None);
}

#[test]
fn unwinding_leaves_the_healthy_alone() {
    let healthy = || Reply::Position(config(), pool_position(2_000_0000000, 1_000_0000000));
    assert_eq!(
        BlendLeverageStrategy::rebalance().step(healthy()),
        UnwindState::Rebalanced(Ok(()))
    );
    assert_eq!(
        BlendLeverageStrategy::partial_unwind(address(8)).step(Reply::Done).step(healthy()),
        UnwindState::Unwound(Ok(0))
    );
}

#[test]
fn unwinding_passes_errors_on() {
    let poor = || Reply::Position(config(), pool_position(1_000_0000000, 950_0000000));
    let overflowing = || Reply::Position(config(), pool_position(i128::MAX, 1));
    assert_eq!(
        BlendLeverageStrategy::rebalance().step(overflowing()),
        UnwindState::Rebalanced(Err(StrategyError::ArithmeticError))
    );
    assert_eq!(
        BlendLeverageStrategy::rebalance()
            .step(poor())
            .step(Reply::Tokens(Err(StrategyError::ExternalError))),
        UnwindState::Rebalanced(Err(StrategyError::ExternalError))
    );
    let unwinding = || BlendLeverageStrategy::partial_unwind(address(8)).step(Reply::Done);
    assert_eq!(
        unwinding()
            .step(poor())
            .step(Reply::Tokens(Ok((1, 1))))
            .step(Reply::Settled(Err(StrategyError::UnderflowOverflow))),
        UnwindState::Unwound(Err(StrategyError::UnderflowOverflow))
    );
    assert_eq!(unwinding().step(Reply::Done), unwinding());
}

// The keeper

#[test]
fn keeper_changes_with_consent() {
    let state = BlendLeverageStrategy::set_keeper(address(6));
    assert_eq!(state.request(), Some(Request::ReadKeeper));
    let state = state.step(Reply::Done).step(Reply::Keeper(address(5)));
    assert_eq!(state.request(), Some(Request::Authorize(address(5))));
    let state = state.step(Reply::Done);
    assert_eq!(state.request(), Some(Request::StoreKeeper(address(6))));
    let state = state.step(Reply::Done);
    assert_eq!(state, KeeperState::Finished(Ok(())));
    assert_eq!(state.request(), None);
    assert_eq!(BlendLeverageStrategy::get_keeper(address(6)), Ok(address(6)));
}

// Creation

fn init_args() -> Vec<InitArg> {
    vec![
        InitArg::Address(address(2)),
        InitArg::Address(address(3)),
        InitArg::Address(address(4)),
        InitArg::I128(40),
        InitArg::Address(address(5)),
        InitArg::I128(9_500_000),
        InitArg::U32(8),
        InitArg::I128(10_500_000),
        InitArg::I128(11_500_000),
    ]
}

#[test]
fn creation_stores_what_it_was_given() {
    let init = InitArgs::read(&init_args()).unwrap();
    let (config, keeper) = BlendLeverageStrategy::__constructor(address(1), init, 3).unwrap();
    assert_eq!(keeper, address(5));
    assert_eq!(
        config,
        Config {
            asset: address(1),
            pool: address(2),
            reserve_id: 3,
            blend_token: address(3),
            router: address(4),
            claim_ids: vec![7, 6],
            reward_threshold: 40,
            c_factor: 9_500_000,
            target_loops: 8,
            min_hf: 10_500_000,
            orange_hf: 11_500_000,
        }
    );
    assert_eq!(BlendLeverageStrategy::asset(&config), Ok(address(1)));
}

#[test]
fn creation_refuses_bad_arguments() {
    for i in 0..9 {
        let mut short = init_args();
        short.truncate(i);
        assert_eq!(InitArgs::read(&short), Err(InitError::Missing(i)));
        let mut wrong = init_args();
        wrong[i] = InitArg::Other;
        assert_eq!(InitArgs::read(&wrong), Err(InitError::WrongType(i)));
    }
    // The first objection counts.
    let mut both = init_args();
    both.truncate(5);
    both[2] = InitArg::U32(1);
    assert_eq!(InitArgs::read(&both), Err(InitError::WrongType(2)));
    // More arguments than needed do no harm.
    let mut long = init_args();
    long.push(InitArg::Other);
    assert!(InitArgs::read(&long).is_ok());
}

#[test]
fn creation_needs_a_positive_reward_threshold() {
    let mut init = InitArgs::read(&init_args()).unwrap();
    for threshold in [0, -1] {
        init.reward_threshold = threshold;
        assert_eq!(
            BlendLeverageStrategy::__constructor(address(1), init, 3),
            Err(InitError::RewardThresholdNotPositive)
        );
    }
}

#[test]
fn creation_needs_an_orange_zone_above_the_minimum() {
    let mut init = InitArgs::read(&init_args()).unwrap();
    init.orange_hf = init.min_hf + 1;
    let (config, _) = BlendLeverageStrategy::__constructor(address(1), init, 3).unwrap();
    assert_eq!(config.orange_hf, config.min_hf + 1);
    for below in [0, 1] {
        init.orange_hf = init.min_hf - below;
        assert_eq!(
            BlendLeverageStrategy::__constructor(address(1), init, 3),
            Err(InitError::OrangeZoneNotAboveMinimum)
        );
    }
    // The reward threshold is objected to first.
    init.reward_threshold = 0;
    assert_eq!(
        BlendLeverageStrategy::__constructor(address(1), init, 3),
        Err(InitError::RewardThresholdNotPositive)
    );
}

// Queries

#[test]
fn balance_is_the_worth_of_shares() {
    let from = address(9);
    let state = BlendLeverageStrategy::balance(from);
    assert_eq!(state.request(), Some(Request::ReadShares(from)));
    let state = state.step(Reply::Shares(500));
    assert_eq!(state.request(), Some(Request::ReadReserves));
    let state = state.step(Reply::Done).step(Reply::Reserves(reserves(8_000, 7_000, 1_000)));
    assert_eq!(state, BalanceState::Finished(Ok(500)));
    assert_eq!(state.request(), None);
    for shares in [0, -5] {
        assert_eq!(
            BlendLeverageStrategy::balance(from).step(Reply::Shares(shares)),
            BalanceState::Finished(Ok(0))
        );
    }
    assert_eq!(
        BlendLeverageStrategy::balance(from)
            .step(Reply::Shares(i128::MAX))
            .step(Reply::Reserves(reserves(8, 0, 1))),
        BalanceState::Finished(Err(StrategyError::ArithmeticError))
    );
}

#[test]
fn position_and_health_factor() {
    let held = LeverageReserves { b_rate: 2 * SCALAR_12, ..reserves(8_000, 7_000, 1_000) };
    assert_eq!(
        BlendLeverageStrategy::position(&held),
        Ok((9_000, 1_000, 8_000, 7_000, 2 * SCALAR_12, SCALAR_12))
    );
    assert_eq!(
        BlendLeverageStrategy::position(&LeverageReserves { d_rate: i128::MAX, ..held }),
        Err(StrategyError::ArithmeticError)
    );
    assert_eq!(
        BlendLeverageStrategy::health_factor(&config(), &pool_position(2_000, 1_000)),
        Ok(19_000_000)
    );
    assert_eq!(
        BlendLeverageStrategy::health_factor(&config(), &pool_position(2_000, 0)),
        Ok(i128::MAX)
    );
}

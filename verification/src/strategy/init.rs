//! Creating the strategy.

use crate::strategy::{check_positive_amount, BlendLeverageStrategy};
use crate::types::{Address, Config};
use vstd::prelude::*;

verus! {

/// One of the arguments that the strategy is created with.
#[derive(Debug, Clone, Copy, PartialEq, Eq)]
pub enum InitArg {
    Address(Address),
    I128(i128),
    U32(u32),
    /// A value of another type.
    Other,
}

/// Why the strategy cannot be created.
#[derive(Debug, Clone, Copy, PartialEq, Eq, Structural)]
pub enum InitError {
    /// There is no argument at this place.
    Missing(usize),
    /// The argument at this place is not of the type that belongs there.
    WrongType(usize),
    /// The reward threshold is not positive.
    RewardThresholdNotPositive,
    /// The orange-zone threshold is not greater than the minimum health factor.
    OrangeZoneNotAboveMinimum,
}

/// The arguments, by name. They are given in the order of the fields.
#[derive(Debug, Clone, Copy, PartialEq, Eq)]
pub struct InitArgs {
    /// The lending pool.
    pub pool: Address,
    /// The token in which the pool pays emissions.
    pub blend_token: Address,
    /// The router that swaps emissions.
    pub router: Address,
    /// The least amount of emissions worth harvesting.
    pub reward_threshold: i128,
    /// The one who may harvest.
    pub keeper: Address,
    /// The collateral factor, seven decimals.
    pub c_factor: i128,
    /// The number of supply and borrow rounds of a deposit.
    pub target_loops: u32,
    /// The minimum health factor, seven decimals.
    pub min_hf: i128,
    /// The orange-zone threshold, seven decimals, greater than the minimum health factor.
    pub orange_hf: i128,
}

/// The number of arguments.
pub const INIT_ARGS: usize = 9;

/// Whether an argument is of the type that belongs at place `i`.
pub open spec fn belongs_at(arg: InitArg, i: int) -> bool {
    if i == 0 || i == 1 || i == 2 || i == 4 {
        arg is Address
    } else if i == 6 {
        arg is U32
    } else {
        arg is I128
    }
}

/// What is wrong with the argument at place `i`, if anything.
pub open spec fn objection_at(args: Seq<InitArg>, i: int) -> Option<InitError> {
    if i >= args.len() {
        Some(InitError::Missing(i as usize))
    } else if !belongs_at(args[i], i) {
        Some(InitError::WrongType(i as usize))
    } else {
        None
    }
}

/// Whether `e` is the objection to the first argument to which there is one.
pub open spec fn first_objection(args: Seq<InitArg>, e: InitError) -> bool {
    exists|i: int|
        0 <= i < INIT_ARGS && #[trigger] objection_at(args, i) == Some(e) && forall|j: int|
            0 <= j < i ==> #[trigger] objection_at(args, j) is None
}

fn address_at(args: &Vec<InitArg>, i: usize) -> (r: Result<Address, InitError>)
    requires
        i == 0 || i == 1 || i == 2 || i == 4,
    ensures
        match r {
            Ok(a) => objection_at(args@, i as int) is None && args@[i as int] == InitArg::Address(a),
            Err(e) => objection_at(args@, i as int) == Some(e),
        },
{
    if i >= args.len() {
        return Err(InitError::Missing(i));
    }
    match args[i] {
        InitArg::Address(a) => Ok(a),
        _ => Err(InitError::WrongType(i)),
    }
}

fn amount_at(args: &Vec<InitArg>, i: usize) -> (r: Result<i128, InitError>)
    requires
        i == 3 || i == 5 || i == 7 || i == 8,
    ensures
        match r {
            Ok(v) => objection_at(args@, i as int) is None && args@[i as int] == InitArg::I128(v),
            Err(e) => objection_at(args@, i as int) == Some(e),
        },
{
    if i >= args.len() {
        return Err(InitError::Missing(i));
    }
    match args[i] {
        InitArg::I128(v) => Ok(v),
        _ => Err(InitError::WrongType(i)),
    }
}

fn count_at(args: &Vec<InitArg>, i: usize) -> (r: Result<u32, InitError>)
    requires
        i == 6,
    ensures
        match r {
            Ok(v) => objection_at(args@, i as int) is None && args@[i as int] == InitArg::U32(v),
            Err(e) => objection_at(args@, i as int) == Some(e),
        },
{
    if i >= args.len() {
        return Err(InitError::Missing(i));
    }
    match args[i] {
        InitArg::U32(v) => Ok(v),
        _ => Err(InitError::WrongType(i)),
    }
}

impl InitArgs {
    /// Reads the arguments. Arguments past the ninth are ignored.
    pub fn read(args: &Vec<InitArg>) -> (r: Result<InitArgs, InitError>)
        ensures
            match r {
                Ok(init) => {
                    &&& args@.len() >= INIT_ARGS
                    &&& args@[0] == InitArg::Address(init.pool)
                    &&& args@[1] == InitArg::Address(init.blend_token)
                    &&& args@[2] == InitArg::Address(init.router)
                    &&& args@[3] == InitArg::I128(init.reward_threshold)
                    &&& args@[4] == InitArg::Address(init.keeper)
                    &&& args@[5] == InitArg::I128(init.c_factor)
                    &&& args@[6] == InitArg::U32(init.target_loops)
                    &&& args@[7] == InitArg::I128(init.min_hf)
                    &&& args@[8] == InitArg::I128(init.orange_hf)
                },
                Err(e) => first_objection(args@, e),
            },
    {
        let pool = address_at(args, 0)?;
        let blend_token = address_at(args, 1)?;
        let router = address_at(args, 2)?;
        let reward_threshold: i128 = amount_at(args, 3)?;
        let keeper = address_at(args, 4)?;
        let c_factor: i128 = amount_at(args, 5)?;
        let target_loops: u32 = count_at(args, 6)?;
        let min_hf: i128 = amount_at(args, 7)?;
        let orange_hf: i128 = amount_at(args, 8)?;
        Ok(
            InitArgs {
                pool,
                blend_token,
                router,
                reward_threshold,
                keeper,
                c_factor,
                target_loops,
                min_hf,
                orange_hf,
            },
        )
    }
}

impl BlendLeverageStrategy {
    /// The configuration and the keeper that a new strategy on `asset` stores, once the index
    /// of the asset's reserve in the pool is known. The emissions claimed are those of the
    /// supply side, at twice the index and one, and of the borrow side, at twice the index.
    ///
    /// A reward threshold that is not positive is refused, and so is an orange-zone threshold
    /// that is not greater than the minimum health factor.
    pub fn __constructor(asset: Address, init: InitArgs, reserve_id: u32) -> (r: Result<
        (Config, Address),
        InitError,
    >)
        requires
            reserve_id * 2 + 1 <= u32::MAX,
        ensures
            r is Ok <==> init.reward_threshold > 0 && init.orange_hf > init.min_hf,
            match r {
                Ok((config, keeper)) => {
                    &&& keeper == init.keeper
                    &&& config.asset == asset
                    &&& config.pool == init.pool
                    &&& config.reserve_id == reserve_id
                    &&& config.blend_token == init.blend_token
                    &&& config.router == init.router
                    &&& config.claim_ids@ == seq![
                        (reserve_id * 2 + 1) as u32,
                        (reserve_id * 2) as u32,
                    ]
                    &&& config.reward_threshold == init.reward_threshold
                    &&& config.c_factor == init.c_factor
                    &&& config.target_loops == init.target_loops
                    &&& config.min_hf == init.min_hf
                    &&& config.orange_hf == init.orange_hf
                },
                Err(e) => e == if init.reward_threshold <= 0 {
                    InitError::RewardThresholdNotPositive
                } else {
                    InitError::OrangeZoneNotAboveMinimum
                },
            },
    {
        let claim_ids: Vec<u32> = vec![reserve_id * 2 + 1, reserve_id * 2];
        if check_positive_amount(init.reward_threshold).is_err() {
            return Err(InitError::RewardThresholdNotPositive);
        }
        if init.orange_hf <= init.min_hf {
            return Err(InitError::OrangeZoneNotAboveMinimum);
        }
        let config = Config {
            asset,
            pool: init.pool,
            reserve_id,
            blend_token: init.blend_token,
            router: init.router,
            claim_ids,
            reward_threshold: init.reward_threshold,
            c_factor: init.c_factor,
            target_loops: init.target_loops,
            min_hf: init.min_hf,
            orange_hf: init.orange_hf,
        };
        Ok((config, init.keeper))
    }
}

/// The arguments are read exactly where there is no objection to any of the nine.
pub proof fn law_init_objections(args: Seq<InitArg>)
    ensures
        (exists|e: InitError| first_objection(args, e)) <==> (exists|i: int|
            0 <= i < INIT_ARGS && #[trigger] objection_at(args, i) is Some),
{
    if exists|i: int| 0 <= i < INIT_ARGS && #[trigger] objection_at(args, i) is Some {
        let i = choose|i: int| 0 <= i < INIT_ARGS && #[trigger] objection_at(args, i) is Some;
        lemma_first_objection(args, i);
    }
}

/// Where there is an objection, there is a first one.
proof fn lemma_first_objection(args: Seq<InitArg>, i: int)
    requires
        0 <= i < INIT_ARGS,
        objection_at(args, i) is Some,
    ensures
        exists|e: InitError| first_objection(args, e),
    decreases i,
{
    if exists|j: int| 0 <= j < i && #[trigger] objection_at(args, j) is Some {
        let j = choose|j: int| 0 <= j < i && #[trigger] objection_at(args, j) is Some;
        lemma_first_objection(args, j);
    } else {
        assert(first_objection(args, objection_at(args, i)->0));
    }
}

} // verus!

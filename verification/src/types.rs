//! The values that the strategy's rules are written over.

use vstd::prelude::*;

verus! {

/// A ledger address, as the characters of its strkey.
#[derive(Debug, Clone, Copy, PartialEq, Eq)]
pub struct Address {
    pub strkey: [u8; 56],
}

impl Address {
    /// Whether two addresses are the same one.
    pub fn same_as(&self, other: &Address) -> (r: bool)
        ensures
            r == (*self == *other),
    {
        let mut i: usize = 0;
        while i < 56
            invariant
                0 <= i <= 56,
                forall|j: int| 0 <= j < i ==> self.strkey[j] == other.strkey[j],
            decreases 56 - i,
        {
            if self.strkey[i] != other.strkey[i] {
                return false;
            }
            i += 1;
        }
        assert(self.strkey =~= other.strkey);
        true
    }
}

/// What the strategy is configured with when it is created.
#[derive(Debug, PartialEq, Eq)]
pub struct Config {
    /// The underlying asset.
    pub asset: Address,
    /// The lending pool.
    pub pool: Address,
    /// The index of the asset's reserve in the pool.
    pub reserve_id: u32,
    /// The token in which the pool pays emissions.
    pub blend_token: Address,
    /// The router that swaps emissions for the underlying asset.
    pub router: Address,
    /// The emission ids that are claimed: supply side, then borrow side.
    pub claim_ids: Vec<u32>,
    /// The least amount of emissions worth harvesting.
    pub reward_threshold: i128,
    /// The collateral factor, seven decimals.
    pub c_factor: i128,
    /// The number of supply and borrow rounds of a deposit.
    pub target_loops: u32,
    /// The minimum health factor, seven decimals. A deposit has to leave the position above it.
    pub min_hf: i128,
    /// The health factor below which the position may be unwound, seven decimals. It is greater
    /// than the minimum.
    pub orange_hf: i128,
}

/// The strategy's position in the pool and the shares issued against it.
#[derive(Debug, Clone, Copy, PartialEq, Eq, Structural)]
pub struct LeverageReserves {
    /// The shares in circulation.
    pub total_shares: i128,
    /// The supply tokens held.
    pub total_b_tokens: i128,
    /// The debt tokens owed.
    pub total_d_tokens: i128,
    /// The underlying worth of a supply token, twelve decimals.
    pub b_rate: i128,
    /// The underlying worth of a debt token, twelve decimals.
    pub d_rate: i128,
}

} // verus!

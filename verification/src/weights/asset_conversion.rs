//! Weights of the calls that convert assets through pools, as measured for one
//! runtime.

use vstd::prelude::*;
use crate::weights::{capped, saturating_mul, RuntimeDbWeight, Weight};

verus! {

/// The weights of the asset conversion calls, for a chain with the given storage
/// costs.
#[derive(Clone, Copy, Debug, PartialEq, Eq, Structural)]
pub struct WeightInfo {
    /// What reading and writing storage costs on the chain.
    pub db: RuntimeDbWeight,
}

impl WeightInfo {
    /// Weight of creating a pool.
    pub fn create_pool(&self) -> (weight: Weight)
        ensures
            weight.ref_time == capped(92_983_000 + self.db.read * 7 + self.db.write * 4),
            weight.proof_size == capped(4689),
    {
        Weight::from_parts(92_983_000, 0)
            .saturating_add(Weight::from_parts(0, 4689))
            .saturating_add(self.db.reads(7))
            .saturating_add(self.db.writes(4))
    }

    /// Weight of adding liquidity to a pool.
    pub fn add_liquidity(&self) -> (weight: Weight)
        ensures
            weight.ref_time == capped(229_064_000 + self.db.read * 9 + self.db.write * 7),
            weight.proof_size == capped(7404),
    {
        Weight::from_parts(229_064_000, 0)
            .saturating_add(Weight::from_parts(0, 7404))
            .saturating_add(self.db.reads(9))
            .saturating_add(self.db.writes(7))
    }

    /// Weight of removing liquidity from a pool.
    pub fn remove_liquidity(&self) -> (weight: Weight)
        ensures
            weight.ref_time == capped(225_756_000 + self.db.read * 9 + self.db.write * 6),
            weight.proof_size == capped(7404),
    {
        Weight::from_parts(225_756_000, 0)
            .saturating_add(Weight::from_parts(0, 7404))
            .saturating_add(self.db.reads(9))
            .saturating_add(self.db.writes(6))
    }

    /// Weight of swapping an exact amount in, along a path of `n` assets.
    pub fn swap_exact_tokens_for_tokens(&self, n: u32) -> (weight: Weight)
        ensures
            weight.ref_time == capped(
                149_061_000 + 2_609_579 * n + self.db.read * 6 + self.db.write * 4,
            ),
            weight.proof_size == capped(7404 + 3157 * n),
    {
        Weight::from_parts(149_061_000, 0)
            .saturating_add(Weight::from_parts(0, 7404))
            .saturating_add(Weight::from_parts(2_609_579, 0).saturating_mul(n as u64))
            .saturating_add(self.db.reads(6))
            .saturating_add(self.db.writes(4))
            .saturating_add(Weight::from_parts(0, 3157).saturating_mul(n as u64))
    }

    /// Weight of swapping for an exact amount out, along a path of `n` assets.
    pub fn swap_tokens_for_exact_tokens(&self, n: u32) -> (weight: Weight)
        ensures
            weight.ref_time == capped(
                149_147_000 + 2_685_202 * n + self.db.read * 6 + self.db.write * 4,
            ),
            weight.proof_size == capped(7404 + 3157 * n),
    {
        Weight::from_parts(149_147_000, 0)
            .saturating_add(Weight::from_parts(0, 7404))
            .saturating_add(Weight::from_parts(2_685_202, 0).saturating_mul(n as u64))
            .saturating_add(self.db.reads(6))
            .saturating_add(self.db.writes(4))
            .saturating_add(Weight::from_parts(0, 3157).saturating_mul(n as u64))
    }

    /// Weight of touching a pool, which creates `n` accounts.
    pub fn touch(&self, n: u32) -> (weight: Weight)
        ensures
            weight.ref_time == capped(
                65_568_634 + 17_037_893 * n + self.db.read * 6 + self.db.write * (1 * n),
            ),
            weight.proof_size == capped(4689),
    {
        assert(0 <= self.db.write * (1 * n)) by (nonlinear_arith);
        Weight::from_parts(65_568_634, 0)
            .saturating_add(Weight::from_parts(0, 4689))
            .saturating_add(Weight::from_parts(17_037_893, 0).saturating_mul(n as u64))
            .saturating_add(self.db.reads(6))
            .saturating_add(self.db.writes(saturating_mul(1, n as u64)))
    }
}

} // verus!

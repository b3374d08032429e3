//! Weights of the calls that measure the benchmarking machinery itself.

use vstd::prelude::*;
use crate::weights::{capped, Weight};

verus! {

/// The weights that the benchmarking calls need.
pub trait WeightInfo {
    /// Weight of an addition.
    fn addition(&self, i: u32) -> Weight;

    /// Weight of a subtraction.
    fn subtraction(&self, i: u32) -> Weight;

    /// Weight of a multiplication.
    fn multiplication(&self, i: u32) -> Weight;

    /// Weight of a division.
    fn division(&self, i: u32) -> Weight;

    /// Weight of hashing.
    fn hashing(&self) -> Weight;

    /// Weight of `i` signature verifications.
    fn sr25519_verification(&self, i: u32) -> Weight;
}

/// The weights measured on reference hardware.
#[derive(Clone, Copy, Debug, PartialEq, Eq, Structural)]
pub struct SubstrateWeight;

/// Computation time of `i` signature verifications.
pub open spec fn sr25519_verification_time(i: u32) -> u64 {
    capped(4_118_993 + 40_826_122 * i)
}

impl WeightInfo for SubstrateWeight {
    fn addition(&self, i: u32) -> (weight: Weight)
        ensures
            weight == (Weight { ref_time: 206_618, proof_size: 0 }),
    {
        Weight::from_parts(206_618, 0)
    }

    fn subtraction(&self, i: u32) -> (weight: Weight)
        ensures
            weight == (Weight { ref_time: 206_586, proof_size: 0 }),
    {
        Weight::from_parts(206_586, 0)
    }

    fn multiplication(&self, i: u32) -> (weight: Weight)
        ensures
            weight == (Weight { ref_time: 201_568, proof_size: 0 }),
    {
        Weight::from_parts(201_568, 0)
    }

    fn division(&self, i: u32) -> (weight: Weight)
        ensures
            weight == (Weight { ref_time: 202_039, proof_size: 0 }),
    {
        Weight::from_parts(202_039, 0)
    }

    fn hashing(&self) -> (weight: Weight)
        ensures
            weight == (Weight { ref_time: 26_910_483_000, proof_size: 0 }),
    {
        Weight::from_parts(26_910_483_000, 0)
    }

    fn sr25519_verification(&self, i: u32) -> (weight: Weight)
        ensures
            weight == (Weight { ref_time: sr25519_verification_time(i), proof_size: 0 }),
    {
        Weight::from_parts(4_118_993, 0).saturating_add(
            Weight::from_parts(40_826_122, 0).saturating_mul(i as u64),
        )
    }
}

} // verus!

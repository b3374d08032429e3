//! Weights of the steps of a multi-block election.

use vstd::prelude::*;
use crate::weights::{capped, saturating_mul, RuntimeDbWeight, Weight};

verus! {

/// The weights that the steps of the election need.
pub trait WeightInfo {
    /// Weight of creating one page of the snapshot of targets.
    fn create_targets_snapshot_paged(&self, t: u32) -> Weight;

    /// Weight of creating one page of the snapshot of voters.
    fn create_voters_snapshot_paged(&self, v: u32) -> Weight;

    /// Weight of a block that starts the signed phase.
    fn on_initialize_start_signed(&self) -> Weight;

    /// Weight of a block that moves on to the next phase.
    fn on_phase_transition(&self) -> Weight;

    /// Weight of a block that starts the export.
    fn on_initialize_start_export(&self) -> Weight;

    /// Weight of a block in which nothing is to be done.
    fn on_initialize_do_nothing(&self) -> Weight;
}

/// The weights measured on reference hardware, for a chain with the given storage
/// costs.
#[derive(Clone, Copy, Debug, PartialEq, Eq, Structural)]
pub struct SubstrateWeight {
    /// What reading and writing storage costs on the chain.
    pub db: RuntimeDbWeight,
}

impl WeightInfo for SubstrateWeight {
    fn create_targets_snapshot_paged(&self, t: u32) -> (weight: Weight)
        ensures
            weight.ref_time == capped(
                3_209_333_333 + 86_960_937 * t + self.db.read * 3 + self.db.read * (1 * t)
                    + self.db.write * 2,
            ),
            weight.proof_size == capped(3510 + 2520 * t),
    {
        assert(0 <= self.db.read * (1 * t)) by (nonlinear_arith);
        Weight::from_parts(3_209_333_333, 0)
            .saturating_add(Weight::from_parts(0, 3510))
            .saturating_add(Weight::from_parts(86_960_937, 0).saturating_mul(t as u64))
            .saturating_add(self.db.reads(3))
            .saturating_add(self.db.reads(saturating_mul(1, t as u64)))
            .saturating_add(self.db.writes(2))
            .saturating_add(Weight::from_parts(0, 2520).saturating_mul(t as u64))
    }

    fn create_voters_snapshot_paged(&self, v: u32) -> (weight: Weight)
        ensures
            weight.ref_time == capped(
                4_906_354_838 + 260_582_661 * v + self.db.read * 208 + self.db.read * (5 * v)
                    + self.db.write * 3,
            ),
            weight.proof_size == capped(512_390 + 3566 * v),
    {
        assert(0 <= self.db.read * (5 * v)) by (nonlinear_arith);
        Weight::from_parts(4_906_354_838, 0)
            .saturating_add(Weight::from_parts(0, 512_390))
            .saturating_add(Weight::from_parts(260_582_661, 0).saturating_mul(v as u64))
            .saturating_add(self.db.reads(208))
            .saturating_add(self.db.reads(saturating_mul(5, v as u64)))
            .saturating_add(self.db.writes(3))
            .saturating_add(Weight::from_parts(0, 3566).saturating_mul(v as u64))
    }

    fn on_initialize_start_signed(&self) -> (weight: Weight)
        ensures
            weight.ref_time == capped(66_000_000 + self.db.read * 2 + self.db.write * 2),
            weight.proof_size == capped(1561),
    {
        Weight::from_parts(66_000_000, 0)
            .saturating_add(Weight::from_parts(0, 1561))
            .saturating_add(self.db.reads(2))
            .saturating_add(self.db.writes(2))
    }

    fn on_phase_transition(&self) -> (weight: Weight)
        ensures
            weight.ref_time == capped(62_000_000 + self.db.read * 2 + self.db.write * 1),
            weight.proof_size == capped(1561),
    {
        Weight::from_parts(62_000_000, 0)
            .saturating_add(Weight::from_parts(0, 1561))
            .saturating_add(self.db.reads(2))
            .saturating_add(self.db.writes(1))
    }

    fn on_initialize_start_export(&self) -> (weight: Weight)
        ensures
            weight.ref_time == capped(3_000_000),
            weight.proof_size == capped(0),
    {
        Weight::from_parts(3_000_000, 0)
            .saturating_add(Weight::from_parts(0, 0))
    }

    fn on_initialize_do_nothing(&self) -> (weight: Weight)
        ensures
            weight.ref_time == capped(111_000_000 + self.db.read * 5),
            weight.proof_size == capped(3481),
    {
        Weight::from_parts(111_000_000, 0)
            .saturating_add(Weight::from_parts(0, 3481))
            .saturating_add(self.db.reads(5))
    }
}

/// Weights of nothing, for chains and tests that do not count them.
impl WeightInfo for () {
    fn create_voters_snapshot_paged(&self, v: u32) -> (weight: Weight)
        ensures
            weight == (Weight { ref_time: 0, proof_size: 0 }),
    {
        Weight::zero()
    }

    fn create_targets_snapshot_paged(&self, t: u32) -> (weight: Weight)
        ensures
            weight == (Weight { ref_time: 0, proof_size: 0 }),
    {
        Weight::zero()
    }

    fn on_initialize_start_signed(&self) -> (weight: Weight)
        ensures
            weight == (Weight { ref_time: 0, proof_size: 0 }),
    {
        Weight::zero()
    }

    fn on_initialize_do_nothing(&self) -> (weight: Weight)
        ensures
            weight == (Weight { ref_time: 0, proof_size: 0 }),
    {
        Weight::zero()
    }

    fn on_phase_transition(&self) -> (weight: Weight)
        ensures
            weight == (Weight { ref_time: 0, proof_size: 0 }),
    {
        Weight::zero()
    }

    fn on_initialize_start_export(&self) -> (weight: Weight)
        ensures
            weight == (Weight { ref_time: 0, proof_size: 0 }),
    {
        Weight::zero()
    }
}

} // verus!

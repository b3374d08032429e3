//! Weight of keeping the Merkle mountain range, as measured for one runtime.

use vstd::prelude::*;
use crate::weights::{capped, RuntimeDbWeight, Weight};

verus! {

/// The weights of the Merkle mountain range, for a chain with the given storage
/// costs.
#[derive(Clone, Copy, Debug, PartialEq, Eq, Structural)]
pub struct WeightInfo {
    /// What reading and writing storage costs on the chain.
    pub db: RuntimeDbWeight,
}

impl WeightInfo {
    /// Weight of adding a leaf to the mountain range at the start of a block, with
    /// `x` peaks.
    pub fn on_initialize(&self, x: u32) -> (weight: Weight)
        ensures
            weight.ref_time == capped(9_780_862_657 + self.db.read * 1033 + self.db.write * 5),
            weight.proof_size == capped(3_608_982 + 39 * x),
    {
        Weight::from_parts(9_780_862_657, 0)
            .saturating_add(Weight::from_parts(0, 3_608_982))
            .saturating_add(self.db.reads(1033))
            .saturating_add(self.db.writes(5))
            .saturating_add(Weight::from_parts(0, 39).saturating_mul(x as u64))
    }
}

} // verus!

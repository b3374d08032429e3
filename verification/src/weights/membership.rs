//! Weights of the calls that manage a set of members.

use vstd::prelude::*;
use crate::weights::{capped, ROCKS_DB_READ, ROCKS_DB_WRITE, RuntimeDbWeight, Weight};

verus! {

/// The weights that the membership calls need.
pub trait WeightInfo {
    /// Weight of adding a member to `m` members.
    fn add_member(&self, m: u32) -> Weight;

    /// Weight of removing a member from `m` members.
    fn remove_member(&self, m: u32) -> Weight;

    /// Weight of swapping a member among `m` members.
    fn swap_member(&self, m: u32) -> Weight;

    /// Weight of replacing `m` members.
    fn reset_members(&self, m: u32) -> Weight;

    /// Weight of changing the key of a member among `m` members.
    fn change_key(&self, m: u32) -> Weight;

    /// Weight of setting the prime member among `m` members.
    fn set_prime(&self, m: u32) -> Weight;

    /// Weight of clearing the prime member.
    fn clear_prime(&self) -> Weight;
}

/// The weights measured on reference hardware, for a chain with the given storage
/// costs.
#[derive(Clone, Copy, Debug, PartialEq, Eq, Structural)]
pub struct SubstrateWeight {
    /// What reading and writing storage costs on the chain.
    pub db: RuntimeDbWeight,
}

impl WeightInfo for SubstrateWeight {
    fn add_member(&self, m: u32) -> (weight: Weight)
        ensures
            weight.ref_time == capped(
                13_647_715 + 36_567 * m + self.db.read * 2 + self.db.write * 3,
            ),
            weight.proof_size == capped(4687 + 64 * m),
    {
        Weight::from_parts(13_647_715, 4687)
            .saturating_add(Weight::from_parts(36_567, 0).saturating_mul(m as u64))
            .saturating_add(self.db.reads(2))
            .saturating_add(self.db.writes(3))
            .saturating_add(Weight::from_parts(0, 64).saturating_mul(m as u64))
    }

    fn remove_member(&self, m: u32) -> (weight: Weight)
        ensures
            weight.ref_time == capped(
                16_105_561 + 34_873 * m + self.db.read * 3 + self.db.write * 3,
            ),
            weight.proof_size == capped(4687 + 64 * m),
    {
        Weight::from_parts(16_105_561, 4687)
            .saturating_add(Weight::from_parts(34_873, 0).saturating_mul(m as u64))
            .saturating_add(self.db.reads(3))
            .saturating_add(self.db.writes(3))
            .saturating_add(Weight::from_parts(0, 64).saturating_mul(m as u64))
    }

    fn swap_member(&self, m: u32) -> (weight: Weight)
        ensures
            weight.ref_time == capped(
                16_011_999 + 48_929 * m + self.db.read * 3 + self.db.write * 3,
            ),
            weight.proof_size == capped(4687 + 64 * m),
    {
        Weight::from_parts(16_011_999, 4687)
            .saturating_add(Weight::from_parts(48_929, 0).saturating_mul(m as u64))
            .saturating_add(self.db.reads(3))
            .saturating_add(self.db.writes(3))
            .saturating_add(Weight::from_parts(0, 64).saturating_mul(m as u64))
    }

    fn reset_members(&self, m: u32) -> (weight: Weight)
        ensures
            weight.ref_time == capped(
                16_337_658 + 147_455 * m + self.db.read * 3 + self.db.write * 3,
            ),
            weight.proof_size == capped(4687 + 64 * m),
    {
        Weight::from_parts(16_337_658, 4687)
            .saturating_add(Weight::from_parts(147_455, 0).saturating_mul(m as u64))
            .saturating_add(self.db.reads(3))
            .saturating_add(self.db.writes(3))
            .saturating_add(Weight::from_parts(0, 64).saturating_mul(m as u64))
    }

    fn change_key(&self, m: u32) -> (weight: Weight)
        ensures
            weight.ref_time == capped(
                16_880_745 + 44_853 * m + self.db.read * 3 + self.db.write * 4,
            ),
            weight.proof_size == capped(4687 + 64 * m),
    {
        Weight::from_parts(16_880_745, 4687)
            .saturating_add(Weight::from_parts(44_853, 0).saturating_mul(m as u64))
            .saturating_add(self.db.reads(3))
            .saturating_add(self.db.writes(4))
            .saturating_add(Weight::from_parts(0, 64).saturating_mul(m as u64))
    }

    fn set_prime(&self, m: u32) -> (weight: Weight)
        ensures
            weight.ref_time == capped(
                6_699_171 + 19_309 * m + self.db.read * 1 + self.db.write * 2,
            ),
            weight.proof_size == capped(4687 + 32 * m),
    {
        Weight::from_parts(6_699_171, 4687)
            .saturating_add(Weight::from_parts(19_309, 0).saturating_mul(m as u64))
            .saturating_add(self.db.reads(1))
            .saturating_add(self.db.writes(2))
            .saturating_add(Weight::from_parts(0, 32).saturating_mul(m as u64))
    }

    fn clear_prime(&self) -> (weight: Weight)
        ensures
            weight.ref_time == capped(2_977_000 + self.db.write * 2),
            weight.proof_size == capped(0),
    {
        Weight::from_parts(2_977_000, 0)
            .saturating_add(self.db.writes(2))
    }
}

/// The weights measured on reference hardware, for a chain that keeps its storage
/// in RocksDB.
impl WeightInfo for () {
    fn add_member(&self, m: u32) -> (weight: Weight)
        ensures
            weight.ref_time == capped(
                13_647_715 + 36_567 * m + ROCKS_DB_READ * 2 + ROCKS_DB_WRITE * 3,
            ),
            weight.proof_size == capped(4687 + 64 * m),
    {
        Weight::from_parts(13_647_715, 4687)
            .saturating_add(Weight::from_parts(36_567, 0).saturating_mul(m as u64))
            .saturating_add(RuntimeDbWeight::rocks_db().reads(2))
            .saturating_add(RuntimeDbWeight::rocks_db().writes(3))
            .saturating_add(Weight::from_parts(0, 64).saturating_mul(m as u64))
    }

    fn remove_member(&self, m: u32) -> (weight: Weight)
        ensures
            weight.ref_time == capped(
                16_105_561 + 34_873 * m + ROCKS_DB_READ * 3 + ROCKS_DB_WRITE * 3,
            ),
            weight.proof_size == capped(4687 + 64 * m),
    {
        Weight::from_parts(16_105_561, 4687)
            .saturating_add(Weight::from_parts(34_873, 0).saturating_mul(m as u64))
            .saturating_add(RuntimeDbWeight::rocks_db().reads(3))
            .saturating_add(RuntimeDbWeight::rocks_db().writes(3))
            .saturating_add(Weight::from_parts(0, 64).saturating_mul(m as u64))
    }

    fn swap_member(&self, m: u32) -> (weight: Weight)
        ensures
            weight.ref_time == capped(
                16_011_999 + 48_929 * m + ROCKS_DB_READ * 3 + ROCKS_DB_WRITE * 3,
            ),
            weight.proof_size == capped(4687 + 64 * m),
    {
        Weight::from_parts(16_011_999, 4687)
            .saturating_add(Weight::from_parts(48_929, 0).saturating_mul(m as u64))
            .saturating_add(RuntimeDbWeight::rocks_db().reads(3))
            .saturating_add(RuntimeDbWeight::rocks_db().writes(3))
            .saturating_add(Weight::from_parts(0, 64).saturating_mul(m as u64))
    }

    fn reset_members(&self, m: u32) -> (weight: Weight)
        ensures
            weight.ref_time == capped(
                16_337_658 + 147_455 * m + ROCKS_DB_READ * 3 + ROCKS_DB_WRITE * 3,
            ),
            weight.proof_size == capped(4687 + 64 * m),
    {
        Weight::from_parts(16_337_658, 4687)
            .saturating_add(Weight::from_parts(147_455, 0).saturating_mul(m as u64))
            .saturating_add(RuntimeDbWeight::rocks_db().reads(3))
            .saturating_add(RuntimeDbWeight::rocks_db().writes(3))
            .saturating_add(Weight::from_parts(0, 64).saturating_mul(m as u64))
    }

    fn change_key(&self, m: u32) -> (weight: Weight)
        ensures
            weight.ref_time == capped(
                16_880_745 + 44_853 * m + ROCKS_DB_READ * 3 + ROCKS_DB_WRITE * 4,
            ),
            weight.proof_size == capped(4687 + 64 * m),
    {
        Weight::from_parts(16_880_745, 4687)
            .saturating_add(Weight::from_parts(44_853, 0).saturating_mul(m as u64))
            .saturating_add(RuntimeDbWeight::rocks_db().reads(3))
            .saturating_add(RuntimeDbWeight::rocks_db().writes(4))
            .saturating_add(Weight::from_parts(0, 64).saturating_mul(m as u64))
    }

    fn set_prime(&self, m: u32) -> (weight: Weight)
        ensures
            weight.ref_time == capped(
                6_699_171 + 19_309 * m + ROCKS_DB_READ * 1 + ROCKS_DB_WRITE * 2,
            ),
            weight.proof_size == capped(4687 + 32 * m),
    {
        Weight::from_parts(6_699_171, 4687)
            .saturating_add(Weight::from_parts(19_309, 0).saturating_mul(m as u64))
            .saturating_add(RuntimeDbWeight::rocks_db().reads(1))
            .saturating_add(RuntimeDbWeight::rocks_db().writes(2))
            .saturating_add(Weight::from_parts(0, 32).saturating_mul(m as u64))
    }

    fn clear_prime(&self) -> (weight: Weight)
        ensures
            weight.ref_time == capped(2_977_000 + ROCKS_DB_WRITE * 2),
            weight.proof_size == capped(0),
    {
        Weight::from_parts(2_977_000, 0)
            .saturating_add(RuntimeDbWeight::rocks_db().writes(2))
    }
}

} // verus!

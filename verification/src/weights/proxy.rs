//! Weights of the calls that manage and use proxies, as measured for one runtime.

use vstd::prelude::*;
use crate::weights::{capped, RuntimeDbWeight, Weight};

verus! {

/// The weights of the proxy calls, for a chain with the given storage costs.
#[derive(Clone, Copy, Debug, PartialEq, Eq, Structural)]
pub struct WeightInfo {
    /// What reading and writing storage costs on the chain.
    pub db: RuntimeDbWeight,
}

impl WeightInfo {
    /// Weight of a call through a proxy, for an account with `p` proxies.
    pub fn proxy(&self, p: u32) -> (weight: Weight)
        ensures
            weight.ref_time == capped(14_477_141 + 51_199 * p + self.db.read * 1),
            weight.proof_size == capped(4706),
    {
        Weight::from_parts(14_477_141, 0)
            .saturating_add(Weight::from_parts(0, 4706))
            .saturating_add(Weight::from_parts(51_199, 0).saturating_mul(p as u64))
            .saturating_add(self.db.reads(1))
    }

    /// Weight of an announced call through a proxy, with `a` announcements and `p`
    /// proxies.
    pub fn proxy_announced(&self, a: u32, p: u32) -> (weight: Weight)
        ensures
            weight.ref_time == capped(
                41_941_202 + 143_574 * a + 39_407 * p + self.db.read * 3 + self.db.write * 2,
            ),
            weight.proof_size == capped(5698),
    {
        Weight::from_parts(41_941_202, 0)
            .saturating_add(Weight::from_parts(0, 5698))
            .saturating_add(Weight::from_parts(143_574, 0).saturating_mul(a as u64))
            .saturating_add(Weight::from_parts(39_407, 0).saturating_mul(p as u64))
            .saturating_add(self.db.reads(3))
            .saturating_add(self.db.writes(2))
    }

    /// Weight of removing an announcement, with `a` announcements. The number of
    /// proxies does not count.
    pub fn remove_announcement(&self, a: u32, p: u32) -> (weight: Weight)
        ensures
            weight.ref_time == capped(
                30_083_138 + 144_890 * a + self.db.read * 2 + self.db.write * 2,
            ),
            weight.proof_size == capped(5698),
    {
        Weight::from_parts(30_083_138, 0)
            .saturating_add(Weight::from_parts(0, 5698))
            .saturating_add(Weight::from_parts(144_890, 0).saturating_mul(a as u64))
            .saturating_add(self.db.reads(2))
            .saturating_add(self.db.writes(2))
    }

    /// Weight of rejecting an announcement, with `a` announcements and `p` proxies.
    pub fn reject_announcement(&self, a: u32, p: u32) -> (weight: Weight)
        ensures
            weight.ref_time == capped(
                30_002_572 + 142_920 * a + 9345 * p + self.db.read * 2 + self.db.write * 2,
            ),
            weight.proof_size == capped(5698),
    {
        Weight::from_parts(30_002_572, 0)
            .saturating_add(Weight::from_parts(0, 5698))
            .saturating_add(Weight::from_parts(142_920, 0).saturating_mul(a as u64))
            .saturating_add(Weight::from_parts(9345, 0).saturating_mul(p as u64))
            .saturating_add(self.db.reads(2))
            .saturating_add(self.db.writes(2))
    }

    /// Weight of announcing a call, with `a` announcements and `p` proxies.
    pub fn announce(&self, a: u32, p: u32) -> (weight: Weight)
        ensures
            weight.ref_time == capped(
                38_175_734 + 152_248 * a + 46_547 * p + self.db.read * 3 + self.db.write * 2,
            ),
            weight.proof_size == capped(5698),
    {
        Weight::from_parts(38_175_734, 0)
            .saturating_add(Weight::from_parts(0, 5698))
            .saturating_add(Weight::from_parts(152_248, 0).saturating_mul(a as u64))
            .saturating_add(Weight::from_parts(46_547, 0).saturating_mul(p as u64))
            .saturating_add(self.db.reads(3))
            .saturating_add(self.db.writes(2))
    }

    /// Weight of adding a proxy to `p` proxies.
    pub fn add_proxy(&self, p: u32) -> (weight: Weight)
        ensures
            weight.ref_time == capped(
                25_495_169 + 41_700 * p + self.db.read * 1 + self.db.write * 1,
            ),
            weight.proof_size == capped(4706),
    {
        Weight::from_parts(25_495_169, 0)
            .saturating_add(Weight::from_parts(0, 4706))
            .saturating_add(Weight::from_parts(41_700, 0).saturating_mul(p as u64))
            .saturating_add(self.db.reads(1))
            .saturating_add(self.db.writes(1))
    }

    /// Weight of removing a proxy from `p` proxies.
    pub fn remove_proxy(&self, p: u32) -> (weight: Weight)
        ensures
            weight.ref_time == capped(
                25_733_222 + 38_762 * p + self.db.read * 1 + self.db.write * 1,
            ),
            weight.proof_size == capped(4706),
    {
        Weight::from_parts(25_733_222, 0)
            .saturating_add(Weight::from_parts(0, 4706))
            .saturating_add(Weight::from_parts(38_762, 0).saturating_mul(p as u64))
            .saturating_add(self.db.reads(1))
            .saturating_add(self.db.writes(1))
    }

    /// Weight of removing all `p` proxies.
    pub fn remove_proxies(&self, p: u32) -> (weight: Weight)
        ensures
            weight.ref_time == capped(
                22_569_616 + 37_766 * p + self.db.read * 1 + self.db.write * 1,
            ),
            weight.proof_size == capped(4706),
    {
        Weight::from_parts(22_569_616, 0)
            .saturating_add(Weight::from_parts(0, 4706))
            .saturating_add(Weight::from_parts(37_766, 0).saturating_mul(p as u64))
            .saturating_add(self.db.reads(1))
            .saturating_add(self.db.writes(1))
    }

    /// Weight of creating a pure proxy, with `p` proxies.
    pub fn create_pure(&self, p: u32) -> (weight: Weight)
        ensures
            weight.ref_time == capped(26_965_786 + 8153 * p + self.db.read * 1 + self.db.write * 1),
            weight.proof_size == capped(4706),
    {
        Weight::from_parts(26_965_786, 0)
            .saturating_add(Weight::from_parts(0, 4706))
            .saturating_add(Weight::from_parts(8153, 0).saturating_mul(p as u64))
            .saturating_add(self.db.reads(1))
            .saturating_add(self.db.writes(1))
    }

    /// Weight of removing a pure proxy, with `p` proxies.
    pub fn kill_pure(&self, p: u32) -> (weight: Weight)
        ensures
            weight.ref_time == capped(
                23_277_873 + 52_966 * p + self.db.read * 1 + self.db.write * 1,
            ),
            weight.proof_size == capped(4706),
    {
        Weight::from_parts(23_277_873, 0)
            .saturating_add(Weight::from_parts(0, 4706))
            .saturating_add(Weight::from_parts(52_966, 0).saturating_mul(p as u64))
            .saturating_add(self.db.reads(1))
            .saturating_add(self.db.writes(1))
    }
}

} // verus!

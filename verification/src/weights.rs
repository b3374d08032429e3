//! Weights: what a call costs in computation time and in size of the storage
//! proof, and the tables that give the cost of each call.

use vstd::prelude::*;

pub mod asset_conversion;
pub mod benchmarking;
pub mod election;
pub mod membership;
pub mod mmr;
pub mod proxy;

verus! {

/// The cost of a call.
#[derive(Clone, Copy, Debug, PartialEq, Eq, Structural)]
pub struct Weight {
    /// Computation time, in picoseconds on reference hardware.
    pub ref_time: u64,
    /// Size of the storage proof, in bytes.
    pub proof_size: u64,
}

/// The cost of reading and of writing one storage item.
#[derive(Clone, Copy, Debug, PartialEq, Eq, Structural)]
pub struct RuntimeDbWeight {
    /// Computation time of one read.
    pub read: u64,
    /// Computation time of one write.
    pub write: u64,
}

/// Computation time of one read from RocksDB, in picoseconds.
pub const ROCKS_DB_READ: u64 = 25_000_000;

/// Computation time of one write to RocksDB, in picoseconds.
pub const ROCKS_DB_WRITE: u64 = 100_000_000;

/// A number cut off at the largest `u64`.
pub open spec fn capped(n: int) -> u64 {
    if n > u64::MAX {
        u64::MAX
    } else if n < 0 {
        0
    } else {
        n as u64
    }
}

/// A product does not get smaller when a factor grows.
proof fn lemma_product_bounds(a: u64, b: u64, q: u64)
    requires
        b > 0,
        q == u64::MAX / b,
    ensures
        a <= q ==> a * b <= u64::MAX,
        a > q ==> a * b > u64::MAX,
{
    assert(a <= q ==> a * b <= q * b) by (nonlinear_arith)
        requires
            b > 0,
    ;
    assert(q * b <= u64::MAX) by (nonlinear_arith)
        requires
            b > 0,
            q == u64::MAX / b,
    ;
    assert(a > q ==> a * b >= (q + 1) * b) by (nonlinear_arith)
        requires
            b > 0,
    ;
    assert((q + 1) * b > u64::MAX) by (nonlinear_arith)
        requires
            b > 0,
            q == u64::MAX / b,
    ;
}

/// The product of two numbers, cut off at the largest `u64`.
pub fn saturating_mul(a: u64, b: u64) -> (product: u64)
    ensures
        product == capped(a * b),
{
    if b == 0 {
        assert(a * b == 0) by (nonlinear_arith)
            requires
                b == 0,
        ;
        return 0;
    }
    let q: u64 = u64::MAX / b;
    proof {
        lemma_product_bounds(a, b, q);
    }
    if a <= q {
        a * b
    } else {
        u64::MAX
    }
}

impl Weight {
    /// The weight with the given computation time and proof size.
    pub fn from_parts(ref_time: u64, proof_size: u64) -> (weight: Self)
        ensures
            weight == (Weight { ref_time, proof_size }),
    {
        Weight { ref_time, proof_size }
    }

    /// The weight that costs nothing.
    pub fn zero() -> (weight: Self)
        ensures
            weight == (Weight { ref_time: 0, proof_size: 0 }),
    {
        Weight { ref_time: 0, proof_size: 0 }
    }

    /// The computation time.
    pub fn ref_time(&self) -> (time: u64)
        ensures
            time == self.ref_time,
    {
        self.ref_time
    }

    /// The size of the storage proof.
    pub fn proof_size(&self) -> (size: u64)
        ensures
            size == self.proof_size,
    {
        self.proof_size
    }

    /// The sum of two weights, each part cut off at the largest `u64`.
    pub fn saturating_add(self, rhs: Self) -> (sum: Self)
        ensures
            sum.ref_time == capped(self.ref_time + rhs.ref_time),
            sum.proof_size == capped(self.proof_size + rhs.proof_size),
    {
        Weight {
            ref_time: self.ref_time.saturating_add(rhs.ref_time),
            proof_size: self.proof_size.saturating_add(rhs.proof_size),
        }
    }

    /// The weight taken `scalar` times, each part cut off at the largest `u64`.
    pub fn saturating_mul(self, scalar: u64) -> (product: Self)
        ensures
            product.ref_time == capped(self.ref_time * scalar),
            product.proof_size == capped(self.proof_size * scalar),
    {
        Weight {
            ref_time: saturating_mul(self.ref_time, scalar),
            proof_size: saturating_mul(self.proof_size, scalar),
        }
    }
}

impl RuntimeDbWeight {
    /// The cost of storage in RocksDB.
    pub fn rocks_db() -> (db: Self)
        ensures
            db == (RuntimeDbWeight { read: ROCKS_DB_READ, write: ROCKS_DB_WRITE }),
    {
        RuntimeDbWeight { read: ROCKS_DB_READ, write: ROCKS_DB_WRITE }
    }

    /// The weight of `count` reads.
    pub fn reads(self, count: u64) -> (weight: Weight)
        ensures
            weight == (Weight { ref_time: capped(self.read * count), proof_size: 0 }),
    {
        Weight::from_parts(saturating_mul(self.read, count), 0)
    }

    /// The weight of `count` writes.
    pub fn writes(self, count: u64) -> (weight: Weight)
        ensures
            weight == (Weight { ref_time: capped(self.write * count), proof_size: 0 }),
    {
        Weight::from_parts(saturating_mul(self.write, count), 0)
    }
}

} // verus!

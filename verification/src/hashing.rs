//! BLAKE2b-256 digests.

use vstd::prelude::*;
use crate::primitives::{HeadData, ValidationCode, ValidationCodeHash, H256};

verus! {

/// The 256-bit BLAKE2b digest of a byte string.
pub uninterp spec fn blake2_256(data: Seq<u8>) -> Seq<u8>;

/// Calls `hash` of `sp_core::Blake2Hasher`. Trusted: the 32 bytes that come back
/// are the BLAKE2b-256 digest of `data`, which contracts call `blake2_256(data)`.
#[verifier::external_body]
fn blake2_256_digest(data: &[u8]) -> (digest: [u8; 32])
    ensures
        digest@ == blake2_256(data@),
{
    <sp_core::Blake2Hasher as sp_core::Hasher>::hash(data).0
}

/// Hashes a byte string.
pub fn hash_bytes(data: &[u8]) -> (h: H256)
    ensures
        h@ == blake2_256(data@),
{
    H256(blake2_256_digest(data))
}

impl ValidationCode {
    /// The hash of the code: that of its bytes as they are, without a length
    /// before them.
    pub fn hash(&self) -> (hash: ValidationCodeHash)
        ensures
            hash.0@ == blake2_256(self.0@),
    {
        ValidationCodeHash(hash_bytes(self.0.as_slice()))
    }
}

impl HeadData {
    /// The hash of the head data: that of its bytes as they are.
    pub fn hash(&self) -> (hash: H256)
        ensures
            hash@ == blake2_256(self.0@),
    {
        hash_bytes(self.0.as_slice())
    }
}

} // verus!

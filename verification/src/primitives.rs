//! Small value types shared by every other module.

use vstd::prelude::*;
use crate::wire::same_bytes;

verus! {

/// Index of a session of the relay chain.
pub type SessionIndex = u32;

/// Number of a relay-chain block.
pub type BlockNumber = u32;

/// A 256-bit hash.
#[derive(Clone, Copy, Debug)]
pub struct H256(pub [u8; 32]);

impl View for H256 {
    type V = Seq<u8>;

    open spec fn view(&self) -> Seq<u8> {
        self.0@
    }
}

impl H256 {
    /// The hash whose 32 bytes are all zero.
    pub fn zero() -> (h: Self)
        ensures
            h@ == crate::wire::zeros(32),
    {
        let h = H256([0u8; 32]);
        assert(h@ =~= crate::wire::zeros(32));
        h
    }
}

impl PartialEq for H256 {
    fn eq(&self, other: &Self) -> (same: bool) {
        same_bytes(&self.0, &other.0)
    }
}

impl Eq for H256 {}

impl vstd::std_specs::cmp::PartialEqSpecImpl for H256 {
    open spec fn obeys_eq_spec() -> bool {
        true
    }

    open spec fn eq_spec(&self, other: &Self) -> bool {
        self@ == other@
    }
}

/// Two hashes are the same value exactly when they hold the same bytes.
pub proof fn lemma_hash_by_bytes(a: H256, b: H256)
    ensures
        (a == b) <==> (a@ == b@),
{
    if a@ == b@ {
        assert(a.0 =~= b.0);
    }
}

/// Identifier of a parachain.
#[derive(Clone, Copy, Debug, PartialEq, Eq, Structural, PartialOrd, Ord, Hash)]
pub struct ParaId(pub u32);

impl ParaId {
    /// The parachain with the given number.
    pub fn new(id: u32) -> (para: Self)
        ensures
            para.0 == id,
    {
        ParaId(id)
    }
}

/// Index of an availability core.
#[derive(Clone, Copy, Debug, PartialEq, Eq, Structural, PartialOrd, Ord, Hash)]
pub struct CoreIndex(pub u32);

impl CoreIndex {
    /// The core with the given number.
    pub fn new(index: u32) -> (core: Self)
        ensures
            core.0 == index,
    {
        CoreIndex(index)
    }
}

/// Index of a backing group of validators.
#[derive(Clone, Copy, Debug, PartialEq, Eq, Structural, PartialOrd, Ord, Hash)]
pub struct GroupIndex(pub u32);

/// Index of a validator in the active set.
#[derive(Clone, Copy, Debug, PartialEq, Eq, Structural, PartialOrd, Ord, Hash)]
pub struct ValidatorIndex(pub u32);

/// The hash of a candidate receipt.
#[derive(Clone, Copy, Debug, PartialEq, Eq)]
pub struct CandidateHash(pub H256);

/// The hash of a parachain's validation code.
#[derive(Clone, Copy, Debug, PartialEq, Eq)]
pub struct ValidationCodeHash(pub H256);

/// The head data a parachain block leaves behind.
#[derive(Clone, Debug, PartialEq, Eq, PartialOrd, Ord)]
pub struct HeadData(pub Vec<u8>);

/// The validation code of a parachain.
#[derive(Clone, Debug, PartialEq, Eq)]
pub struct ValidationCode(pub Vec<u8>);

/// The public key that identified a collator in the legacy descriptor layout.
#[derive(Clone, Copy, Debug)]
pub struct CollatorId(pub [u8; 32]);

impl View for CollatorId {
    type V = Seq<u8>;

    open spec fn view(&self) -> Seq<u8> {
        self.0@
    }
}

impl CollatorId {
    /// Reads a collator id from exactly 32 bytes.
    pub fn from_slice(bytes: &[u8]) -> (id: Option<Self>)
        ensures
            id is Some <==> bytes@.len() == 32,
            id matches Some(c) ==> c@ == bytes@,
    {
        if bytes.len() == 32 {
            let a: [u8; 32] = crate::wire::get_array::<32>(bytes, 0);
            assert(bytes@.subrange(0, 32) =~= bytes@);
            Some(CollatorId(a))
        } else {
            None
        }
    }
}

impl PartialEq for CollatorId {
    fn eq(&self, other: &Self) -> (same: bool) {
        same_bytes(&self.0, &other.0)
    }
}

impl Eq for CollatorId {}

impl vstd::std_specs::cmp::PartialEqSpecImpl for CollatorId {
    open spec fn obeys_eq_spec() -> bool {
        true
    }

    open spec fn eq_spec(&self, other: &Self) -> bool {
        self@ == other@
    }
}

/// The signature a collator put on a legacy descriptor.
#[derive(Clone, Copy, Debug)]
pub struct CollatorSignature(pub [u8; 64]);

impl View for CollatorSignature {
    type V = Seq<u8>;

    open spec fn view(&self) -> Seq<u8> {
        self.0@
    }
}

impl CollatorSignature {
    /// Reads a collator signature from exactly 64 bytes.
    pub fn from_slice(bytes: &[u8]) -> (signature: Option<Self>)
        ensures
            signature is Some <==> bytes@.len() == 64,
            signature matches Some(s) ==> s@ == bytes@,
    {
        if bytes.len() == 64 {
            let a: [u8; 64] = crate::wire::get_array::<64>(bytes, 0);
            assert(bytes@.subrange(0, 64) =~= bytes@);
            Some(CollatorSignature(a))
        } else {
            None
        }
    }
}

impl PartialEq for CollatorSignature {
    fn eq(&self, other: &Self) -> (same: bool) {
        same_bytes(&self.0, &other.0)
    }
}

impl Eq for CollatorSignature {}

impl vstd::std_specs::cmp::PartialEqSpecImpl for CollatorSignature {
    open spec fn obeys_eq_spec() -> bool {
        true
    }

    open spec fn eq_spec(&self, other: &Self) -> bool {
        self@ == other@
    }
}

/// The signature of a validator.
#[derive(Clone, Copy, Debug)]
pub struct ValidatorSignature(pub [u8; 64]);

impl PartialEq for ValidatorSignature {
    fn eq(&self, other: &Self) -> (same: bool) {
        same_bytes(&self.0, &other.0)
    }
}

impl Eq for ValidatorSignature {}

impl vstd::std_specs::cmp::PartialEqSpecImpl for ValidatorSignature {
    open spec fn obeys_eq_spec() -> bool {
        true
    }

    open spec fn eq_spec(&self, other: &Self) -> bool {
        *self == *other
    }
}

/// A validator's vote for a candidate.
#[derive(Clone, Copy, Debug, PartialEq, Eq)]
pub enum ValidityAttestation {
    /// The validator seconded the candidate, which implies that it holds it valid.
    Implicit(ValidatorSignature),
    /// The validator checked the candidate and stated that it is valid.
    Explicit(ValidatorSignature),
}

/// A message that a parachain sends to a sibling.
#[derive(Clone, Debug, PartialEq, Eq)]
pub struct OutboundHrmpMessage {
    /// The parachain that receives the message.
    pub recipient: ParaId,
    /// The payload.
    pub data: Vec<u8>,
}

/// A parachain that is scheduled on a core and may occupy it.
#[derive(Clone, Copy, Debug, PartialEq, Eq)]
pub struct ScheduledCore {
    /// The parachain that is scheduled.
    pub para_id: ParaId,
    /// The collator that must author the block, where one is required.
    pub collator: Option<CollatorId>,
}

} // verus!

//! The legacy forms of descriptor and receipts, which name the collator and carry
//! its signature. They have the same bytes on the wire as the current forms.

use vstd::prelude::*;
use crate::commitments::{CandidateCommitments, CommitmentsView};
use crate::decoding::decoded_commitments;
use crate::descriptor::{CandidateDescriptorV2, DecodeError, DescriptorView, DESCRIPTOR_SIZE};
use crate::hashing::{blake2_256, hash_bytes};
use crate::primitives::{
    CandidateHash, CollatorId, CollatorSignature, ParaId, ValidationCodeHash, H256,
};
use crate::receipt::{
    CandidateReceiptV2, CommittedCandidateReceiptV2, CommittedReceiptView, ReceiptView,
    RECEIPT_SIZE,
};
use crate::wire::{get_array, get_u32, put_bytes, put_u32, u32_from_le, u32_le};

verus! {

/// A unique descriptor of a candidate, in the legacy layout.
#[derive(Clone, Copy, Debug, PartialEq, Eq)]
pub struct CandidateDescriptor {
    /// The parachain the candidate belongs to.
    pub para_id: ParaId,
    /// Hash of the relay-chain block the candidate is executed against.
    pub relay_parent: H256,
    /// The collator that authored the candidate.
    pub collator: CollatorId,
    /// Hash of the persisted validation data.
    pub persisted_validation_data_hash: H256,
    /// Hash of the proof of validity.
    pub pov_hash: H256,
    /// Root of the erasure coding.
    pub erasure_root: H256,
    /// The collator's signature.
    pub signature: CollatorSignature,
    /// Hash of the parachain head the candidate produces.
    pub para_head: H256,
    /// Hash of the validation code.
    pub validation_code_hash: ValidationCodeHash,
}

/// What a legacy descriptor holds, with every byte string as a sequence.
#[verifier::ext_equal]
pub struct LegacyDescriptorView {
    /// The parachain the candidate belongs to.
    pub para_id: ParaId,
    /// Hash of the relay parent, 32 bytes.
    pub relay_parent: Seq<u8>,
    /// The collator id, 32 bytes.
    pub collator: Seq<u8>,
    /// Hash of the persisted validation data, 32 bytes.
    pub persisted_validation_data_hash: Seq<u8>,
    /// Hash of the proof of validity, 32 bytes.
    pub pov_hash: Seq<u8>,
    /// Root of the erasure coding, 32 bytes.
    pub erasure_root: Seq<u8>,
    /// The collator's signature, 64 bytes.
    pub signature: Seq<u8>,
    /// Hash of the parachain head, 32 bytes.
    pub para_head: Seq<u8>,
    /// Hash of the validation code, 32 bytes.
    pub validation_code_hash: Seq<u8>,
}

impl LegacyDescriptorView {
    /// Every byte string has the length its field has.
    pub open spec fn well_formed(self) -> bool {
        &&& self.relay_parent.len() == 32
        &&& self.collator.len() == 32
        &&& self.persisted_validation_data_hash.len() == 32
        &&& self.pov_hash.len() == 32
        &&& self.erasure_root.len() == 32
        &&& self.signature.len() == 64
        &&& self.para_head.len() == 32
        &&& self.validation_code_hash.len() == 32
    }

    /// The bytes of the descriptor on the wire: every field in order.
    pub open spec fn encoding(self) -> Seq<u8> {
        u32_le(self.para_id.0) + self.relay_parent + self.collator
            + self.persisted_validation_data_hash + self.pov_hash + self.erasure_root
            + self.signature + self.para_head + self.validation_code_hash
    }

    /// The legacy descriptor that 292 bytes stand for.
    pub open spec fn decoded(bytes: Seq<u8>) -> LegacyDescriptorView
        recommends
            bytes.len() == DESCRIPTOR_SIZE,
    {
        LegacyDescriptorView {
            para_id: ParaId(u32_from_le(bytes.subrange(0, 4))),
            relay_parent: bytes.subrange(4, 36),
            collator: bytes.subrange(36, 68),
            persisted_validation_data_hash: bytes.subrange(68, 100),
            pov_hash: bytes.subrange(100, 132),
            erasure_root: bytes.subrange(132, 164),
            signature: bytes.subrange(164, 228),
            para_head: bytes.subrange(228, 260),
            validation_code_hash: bytes.subrange(260, 292),
        }
    }
}

impl DescriptorView {
    /// The same descriptor read in the legacy layout: the version tag, the core
    /// index, the session index and the first reserved region become the collator
    /// id, the second reserved region becomes the signature.
    pub open spec fn legacy(self) -> LegacyDescriptorView {
        LegacyDescriptorView {
            para_id: self.para_id,
            relay_parent: self.relay_parent,
            collator: self.collator_bytes(),
            persisted_validation_data_hash: self.persisted_validation_data_hash,
            pov_hash: self.pov_hash,
            erasure_root: self.erasure_root,
            signature: self.reserved64b,
            para_head: self.para_head,
            validation_code_hash: self.validation_code_hash,
        }
    }
}

/// Reading a descriptor in the legacy layout changes no byte on the wire.
pub proof fn lemma_legacy_keeps_encoding(descriptor: DescriptorView)
    ensures
        descriptor.legacy().encoding() == descriptor.encoding(),
        descriptor.well_formed() ==> descriptor.legacy().well_formed(),
{
    assert(descriptor.legacy().encoding() =~= descriptor.encoding());
}

/// Decoding 292 bytes as a legacy descriptor and encoding the result gives the
/// same bytes again.
pub proof fn lemma_encode_decoded_legacy(bytes: Seq<u8>)
    requires
        bytes.len() == DESCRIPTOR_SIZE,
    ensures
        LegacyDescriptorView::decoded(bytes).well_formed(),
        LegacyDescriptorView::decoded(bytes).encoding() == bytes,
{
    crate::wire::lemma_u32_from_le_round_trip(bytes.subrange(0, 4));
    assert(LegacyDescriptorView::decoded(bytes).encoding() =~= bytes);
}

/// Decoding bytes in the legacy layout gives what decoding them in the current
/// layout and reading the result in the legacy layout gives.
pub proof fn lemma_decoded_both_ways(bytes: Seq<u8>)
    requires
        bytes.len() == DESCRIPTOR_SIZE,
    ensures
        DescriptorView::decoded(bytes).legacy() == LegacyDescriptorView::decoded(bytes),
{
    let current = DescriptorView::decoded(bytes);
    crate::wire::lemma_u16_from_le_round_trip(bytes.subrange(37, 39));
    crate::wire::lemma_u32_from_le_round_trip(bytes.subrange(39, 43));
    assert(current.collator_bytes() =~= bytes.subrange(36, 68));
    assert(current.legacy() =~= LegacyDescriptorView::decoded(bytes));
}

impl View for CandidateDescriptor {
    type V = LegacyDescriptorView;

    open spec fn view(&self) -> LegacyDescriptorView {
        LegacyDescriptorView {
            para_id: self.para_id,
            relay_parent: self.relay_parent@,
            collator: self.collator@,
            persisted_validation_data_hash: self.persisted_validation_data_hash@,
            pov_hash: self.pov_hash@,
            erasure_root: self.erasure_root@,
            signature: self.signature@,
            para_head: self.para_head@,
            validation_code_hash: self.validation_code_hash.0@,
        }
    }
}

/// Legacy descriptors with the same view are the same descriptor.
pub proof fn lemma_legacy_view_injective(a: CandidateDescriptor, b: CandidateDescriptor)
    requires
        a@ == b@,
    ensures
        a == b,
{
    assert(a.relay_parent.0 =~= b.relay_parent.0);
    assert(a.collator.0 =~= b.collator.0);
    assert(a.persisted_validation_data_hash.0 =~= b.persisted_validation_data_hash.0);
    assert(a.pov_hash.0 =~= b.pov_hash.0);
    assert(a.erasure_root.0 =~= b.erasure_root.0);
    assert(a.signature.0 =~= b.signature.0);
    assert(a.para_head.0 =~= b.para_head.0);
    assert(a.validation_code_hash.0.0 =~= b.validation_code_hash.0.0);
}

impl CandidateDescriptor {
    /// Appends the 292 bytes of the descriptor.
    pub fn encode_to(&self, out: &mut Vec<u8>)
        ensures
            final(out)@ == old(out)@ + self@.encoding(),
    {
        put_u32(out, self.para_id.0);
        put_bytes(out, self.relay_parent.0.as_slice());
        put_bytes(out, self.collator.0.as_slice());
        put_bytes(out, self.persisted_validation_data_hash.0.as_slice());
        put_bytes(out, self.pov_hash.0.as_slice());
        put_bytes(out, self.erasure_root.0.as_slice());
        put_bytes(out, self.signature.0.as_slice());
        put_bytes(out, self.para_head.0.as_slice());
        put_bytes(out, self.validation_code_hash.0.0.as_slice());
        assert(out@ =~= old(out)@ + self@.encoding());
    }

    /// The 292 bytes of the descriptor.
    pub fn encode(&self) -> (bytes: Vec<u8>)
        ensures
            bytes@ == self@.encoding(),
            bytes@.len() == DESCRIPTOR_SIZE,
    {
        let mut bytes: Vec<u8> = Vec::new();
        self.encode_to(&mut bytes);
        assert(bytes@ =~= self@.encoding());
        bytes
    }

    /// Reads the legacy descriptor that starts at `at`.
    pub(crate) fn read(bytes: &[u8], at: usize) -> (descriptor: Self)
        requires
            at + DESCRIPTOR_SIZE <= bytes@.len(),
        ensures
            descriptor@ == LegacyDescriptorView::decoded(
                bytes@.subrange(at as int, at + DESCRIPTOR_SIZE),
            ),
    {
        let total: usize = bytes.len();
        let ghost part = bytes@.subrange(at as int, at + DESCRIPTOR_SIZE);
        let para_id: u32 = get_u32(bytes, at);
        let relay_parent: [u8; 32] = get_array::<32>(bytes, at + 4);
        let collator: [u8; 32] = get_array::<32>(bytes, at + 36);
        let persisted_validation_data_hash: [u8; 32] = get_array::<32>(bytes, at + 68);
        let pov_hash: [u8; 32] = get_array::<32>(bytes, at + 100);
        let erasure_root: [u8; 32] = get_array::<32>(bytes, at + 132);
        let signature: [u8; 64] = get_array::<64>(bytes, at + 164);
        let para_head: [u8; 32] = get_array::<32>(bytes, at + 228);
        let validation_code_hash: [u8; 32] = get_array::<32>(bytes, at + 260);
        proof {
            assert(part.subrange(0, 4) =~= bytes@.subrange(at as int, at + 4));
            assert(part.subrange(4, 36) =~= bytes@.subrange(at + 4, at + 4 + 32));
            assert(part.subrange(36, 68) =~= bytes@.subrange(at + 36, at + 36 + 32));
            assert(part.subrange(68, 100) =~= bytes@.subrange(at + 68, at + 68 + 32));
            assert(part.subrange(100, 132) =~= bytes@.subrange(at + 100, at + 100 + 32));
            assert(part.subrange(132, 164) =~= bytes@.subrange(at + 132, at + 132 + 32));
            assert(part.subrange(164, 228) =~= bytes@.subrange(at + 164, at + 164 + 64));
            assert(part.subrange(228, 260) =~= bytes@.subrange(at + 228, at + 228 + 32));
            assert(part.subrange(260, 292) =~= bytes@.subrange(at + 260, at + 260 + 32));
        }
        CandidateDescriptor {
            para_id: ParaId(para_id),
            relay_parent: H256(relay_parent),
            collator: CollatorId(collator),
            persisted_validation_data_hash: H256(persisted_validation_data_hash),
            pov_hash: H256(pov_hash),
            erasure_root: H256(erasure_root),
            signature: CollatorSignature(signature),
            para_head: H256(para_head),
            validation_code_hash: ValidationCodeHash(H256(validation_code_hash)),
        }
    }

    /// Reads a legacy descriptor from exactly 292 bytes.
    pub fn decode(bytes: &[u8]) -> (decoded: Result<Self, DecodeError>)
        ensures
            decoded is Ok <==> bytes@.len() == DESCRIPTOR_SIZE,
            decoded matches Ok(descriptor) ==> descriptor@ == LegacyDescriptorView::decoded(
                bytes@,
            ),
    {
        if bytes.len() != DESCRIPTOR_SIZE {
            return Err(DecodeError);
        }
        assert(bytes@.subrange(0, 0 + DESCRIPTOR_SIZE) =~= bytes@);
        Ok(Self::read(bytes, 0))
    }
}

/// Whether a legacy descriptor holds what the view says.
pub open spec fn reads_as(descriptor: CandidateDescriptor, view: LegacyDescriptorView) -> bool {
    descriptor@ == view
}

/// The legacy descriptor that holds what a descriptor holds when it is read in the
/// legacy layout.
pub open spec fn legacy_descriptor_of(value: CandidateDescriptorV2) -> CandidateDescriptor {
    choose|d: CandidateDescriptor| reads_as(d, value@.legacy())
}

impl From<CandidateDescriptorV2> for CandidateDescriptor {
    /// Reads a descriptor in the legacy layout, whichever layout it is in.
    fn from(value: CandidateDescriptorV2) -> (legacy: Self)
        ensures
            legacy@ == value@.legacy(),
    {
        let legacy = CandidateDescriptor {
            para_id: value.para_id(),
            relay_parent: value.relay_parent(),
            collator: value.rebuild_collator_field(),
            persisted_validation_data_hash: value.persisted_validation_data_hash(),
            pov_hash: value.pov_hash(),
            erasure_root: value.erasure_root(),
            signature: value.rebuild_signature_field(),
            para_head: value.para_head(),
            validation_code_hash: value.validation_code_hash(),
        };
        proof {
            assert(legacy@ =~= value@.legacy());
            assert(reads_as(legacy, value@.legacy()));
            let chosen = legacy_descriptor_of(value);
            assert(reads_as(chosen, value@.legacy()));
            lemma_legacy_view_injective(chosen, legacy);
        }
        legacy
    }
}

impl vstd::std_specs::convert::FromSpecImpl<CandidateDescriptorV2> for CandidateDescriptor {
    open spec fn obeys_from_spec() -> bool {
        true
    }

    open spec fn from_spec(value: CandidateDescriptorV2) -> Self {
        legacy_descriptor_of(value)
    }
}

/// A legacy candidate receipt with the hash of the commitments in their place.
#[derive(Clone, Copy, Debug, PartialEq, Eq)]
pub struct CandidateReceipt {
    /// The descriptor of the candidate.
    pub descriptor: CandidateDescriptor,
    /// The hash of the encoded commitments.
    pub commitments_hash: H256,
}

/// A legacy candidate receipt with the commitments themselves.
#[derive(Clone, Debug, PartialEq, Eq)]
pub struct CommittedCandidateReceipt {
    /// The descriptor of the candidate.
    pub descriptor: CandidateDescriptor,
    /// The commitments of the candidate.
    pub commitments: CandidateCommitments,
}

/// What a plain legacy receipt holds.
#[verifier::ext_equal]
pub struct LegacyReceiptView {
    /// The descriptor.
    pub descriptor: LegacyDescriptorView,
    /// The hash of the commitments, 32 bytes.
    pub commitments_hash: Seq<u8>,
}

/// What a committed legacy receipt holds.
#[verifier::ext_equal]
pub struct LegacyCommittedReceiptView {
    /// The descriptor.
    pub descriptor: LegacyDescriptorView,
    /// The commitments.
    pub commitments: CommitmentsView,
}

impl LegacyReceiptView {
    /// The receipt on the wire: the descriptor, then the hash of the commitments.
    pub open spec fn encoding(self) -> Seq<u8> {
        self.descriptor.encoding() + self.commitments_hash
    }

    /// The hash of the receipt.
    pub open spec fn hash_of(self) -> Seq<u8> {
        blake2_256(self.encoding())
    }

    /// The legacy receipt that 324 bytes stand for: a descriptor and a hash.
    pub open spec fn decoded(bytes: Seq<u8>) -> LegacyReceiptView
        recommends
            bytes.len() == RECEIPT_SIZE,
    {
        LegacyReceiptView {
            descriptor: LegacyDescriptorView::decoded(bytes.take(DESCRIPTOR_SIZE as int)),
            commitments_hash: bytes.skip(DESCRIPTOR_SIZE as int),
        }
    }
}

/// Decoding 324 bytes as a legacy receipt gives the receipt that decoding them as
/// a current receipt gives, read in the legacy layout: the two have the same
/// bytes and the same hash.
pub proof fn lemma_decoded_plain_both_ways(bytes: Seq<u8>)
    requires
        bytes.len() == RECEIPT_SIZE,
    ensures
        LegacyReceiptView::decoded(bytes) == ReceiptView::decoded(bytes).legacy(),
        LegacyReceiptView::decoded(bytes).hash_of() == ReceiptView::decoded(bytes).hash_of(),
{
    lemma_decoded_both_ways(bytes.take(DESCRIPTOR_SIZE as int));
    lemma_legacy_keeps_encoding(ReceiptView::decoded(bytes).descriptor);
}

impl LegacyCommittedReceiptView {
    /// The plain receipt of the same candidate.
    pub open spec fn plain(self) -> LegacyReceiptView {
        LegacyReceiptView {
            descriptor: self.descriptor,
            commitments_hash: self.commitments.hash_of(),
        }
    }

    /// The canonical hash of the receipt: that of its plain form.
    pub open spec fn hash_of(self) -> Seq<u8> {
        self.plain().hash_of()
    }

    /// The receipt on the wire: the descriptor, then the commitments.
    pub open spec fn encoding(self) -> Seq<u8> {
        self.descriptor.encoding() + self.commitments.encoding()
    }

    /// The legacy receipt that `s` stands for, where it is a descriptor followed
    /// by the encoding of commitments and by nothing else.
    pub open spec fn decoded(s: Seq<u8>) -> Option<LegacyCommittedReceiptView> {
        if s.len() < DESCRIPTOR_SIZE {
            None
        } else {
            match decoded_commitments(s.skip(DESCRIPTOR_SIZE as int)) {
                Some(commitments) => Some(
                    LegacyCommittedReceiptView {
                        descriptor: LegacyDescriptorView::decoded(
                            s.take(DESCRIPTOR_SIZE as int),
                        ),
                        commitments,
                    },
                ),
                None => None,
            }
        }
    }
}

/// Bytes decode as a legacy receipt exactly when they decode as a current one,
/// and then the legacy receipt is the current one read in the legacy layout: the
/// two have the same hash.
pub proof fn lemma_decoded_receipt_both_ways(s: Seq<u8>)
    ensures
        LegacyCommittedReceiptView::decoded(s) is Some <==> CommittedReceiptView::decoded(s)
            is Some,
        CommittedReceiptView::decoded(s) matches Some(current) ==> {
            &&& LegacyCommittedReceiptView::decoded(s) == Some(current.legacy())
            &&& LegacyCommittedReceiptView::decoded(s)->0.hash_of() == current.hash_of()
        },
{
    if s.len() >= DESCRIPTOR_SIZE {
        lemma_decoded_both_ways(s.take(DESCRIPTOR_SIZE as int));
        if CommittedReceiptView::decoded(s) is Some {
            lemma_legacy_keeps_hash(CommittedReceiptView::decoded(s)->0);
        }
    }
}

impl ReceiptView {
    /// The same receipt with its descriptor read in the legacy layout.
    pub open spec fn legacy(self) -> LegacyReceiptView {
        LegacyReceiptView {
            descriptor: self.descriptor.legacy(),
            commitments_hash: self.commitments_hash,
        }
    }
}

impl CommittedReceiptView {
    /// The same receipt with its descriptor read in the legacy layout.
    pub open spec fn legacy(self) -> LegacyCommittedReceiptView {
        LegacyCommittedReceiptView {
            descriptor: self.descriptor.legacy(),
            commitments: self.commitments,
        }
    }
}

/// A receipt has the same bytes and the same hash in both layouts.
pub proof fn lemma_legacy_keeps_hash(receipt: CommittedReceiptView)
    ensures
        receipt.legacy().encoding() == receipt.encoding(),
        receipt.legacy().encoding().len() == receipt.encoding().len(),
        receipt.legacy().plain().encoding() == receipt.plain().encoding(),
        receipt.legacy().hash_of() == receipt.hash_of(),
{
    lemma_legacy_keeps_encoding(receipt.descriptor);
}

/// A legacy receipt and a current receipt with the same commitments take the
/// same number of bytes on the wire.
pub proof fn lemma_same_encoded_size(
    legacy: LegacyCommittedReceiptView,
    current: CommittedReceiptView,
)
    requires
        legacy.descriptor.well_formed(),
        current.descriptor.well_formed(),
        legacy.commitments == current.commitments,
    ensures
        legacy.encoding().len() == current.encoding().len(),
{
}

impl View for CandidateReceipt {
    type V = LegacyReceiptView;

    open spec fn view(&self) -> LegacyReceiptView {
        LegacyReceiptView {
            descriptor: self.descriptor@,
            commitments_hash: self.commitments_hash@,
        }
    }
}

impl View for CommittedCandidateReceipt {
    type V = LegacyCommittedReceiptView;

    open spec fn view(&self) -> LegacyCommittedReceiptView {
        LegacyCommittedReceiptView { descriptor: self.descriptor@, commitments: self.commitments@ }
    }
}

impl CandidateReceipt {
    /// The receipt as it stands on the wire.
    pub fn encode(&self) -> (bytes: Vec<u8>)
        ensures
            bytes@ == self@.encoding(),
    {
        let mut bytes: Vec<u8> = Vec::new();
        self.descriptor.encode_to(&mut bytes);
        put_bytes(&mut bytes, self.commitments_hash.0.as_slice());
        assert(bytes@ =~= self@.encoding());
        bytes
    }

    /// Reads a legacy receipt from exactly 324 bytes.
    pub fn decode(bytes: &[u8]) -> (decoded: Result<Self, DecodeError>)
        ensures
            decoded is Ok <==> bytes@.len() == RECEIPT_SIZE,
            decoded matches Ok(receipt) ==> receipt@ == LegacyReceiptView::decoded(bytes@),
    {
        if bytes.len() != RECEIPT_SIZE {
            return Err(DecodeError);
        }
        assert(bytes@.subrange(0, 0 + DESCRIPTOR_SIZE) =~= bytes@.take(DESCRIPTOR_SIZE as int));
        assert(bytes@.subrange(DESCRIPTOR_SIZE as int, DESCRIPTOR_SIZE + 32) =~= bytes@.skip(
            DESCRIPTOR_SIZE as int,
        ));
        let descriptor = CandidateDescriptor::read(bytes, 0);
        let commitments_hash: [u8; 32] = get_array::<32>(bytes, DESCRIPTOR_SIZE);
        Ok(CandidateReceipt { descriptor, commitments_hash: H256(commitments_hash) })
    }

    /// The hash of the receipt.
    pub fn hash(&self) -> (hash: CandidateHash)
        ensures
            hash.0@ == self@.hash_of(),
    {
        let bytes = self.encode();
        CandidateHash(hash_bytes(bytes.as_slice()))
    }
}

impl CommittedCandidateReceipt {
    /// The plain receipt of this candidate.
    pub fn to_plain(&self) -> (plain: CandidateReceipt)
        requires
            self@.commitments.encodable(),
        ensures
            plain@ == self@.plain(),
    {
        CandidateReceipt {
            descriptor: self.descriptor,
            commitments_hash: self.commitments.hash(),
        }
    }

    /// The canonical hash of the receipt: that of its plain form.
    pub fn hash(&self) -> (hash: CandidateHash)
        requires
            self@.commitments.encodable(),
        ensures
            hash.0@ == self@.hash_of(),
    {
        self.to_plain().hash()
    }

    /// The receipt as it stands on the wire.
    pub fn encode(&self) -> (bytes: Vec<u8>)
        requires
            self@.commitments.encodable(),
        ensures
            bytes@ == self@.encoding(),
    {
        let mut bytes: Vec<u8> = Vec::new();
        self.descriptor.encode_to(&mut bytes);
        self.commitments.encode_to(&mut bytes);
        assert(bytes@ =~= self@.encoding());
        bytes
    }

    /// Reads a legacy receipt from bytes that hold it and nothing else.
    pub fn decode(bytes: &[u8]) -> (decoded: Result<Self, DecodeError>)
        ensures
            decoded is Ok <==> LegacyCommittedReceiptView::decoded(bytes@) is Some,
            decoded matches Ok(receipt) ==> LegacyCommittedReceiptView::decoded(bytes@) == Some(
                receipt@,
            ),
    {
        if bytes.len() < DESCRIPTOR_SIZE {
            return Err(DecodeError);
        }
        assert(bytes@.subrange(0, 0 + DESCRIPTOR_SIZE) =~= bytes@.take(DESCRIPTOR_SIZE as int));
        let descriptor = CandidateDescriptor::read(bytes, 0);
        match CandidateCommitments::read(bytes, DESCRIPTOR_SIZE) {
            Some((commitments, end)) => {
                if end == bytes.len() {
                    Ok(CommittedCandidateReceipt { descriptor, commitments })
                } else {
                    Err(DecodeError)
                }
            },
            None => Err(DecodeError),
        }
    }
}

/// The legacy receipt that holds what a plain receipt holds.
pub open spec fn legacy_receipt_of(value: CandidateReceiptV2) -> CandidateReceipt {
    CandidateReceipt {
        descriptor: legacy_descriptor_of(value.descriptor),
        commitments_hash: value.commitments_hash,
    }
}

/// The legacy receipt that holds what a committed receipt holds.
pub open spec fn legacy_committed_receipt_of(
    value: CommittedCandidateReceiptV2,
) -> CommittedCandidateReceipt {
    CommittedCandidateReceipt {
        descriptor: legacy_descriptor_of(value.descriptor),
        commitments: value.commitments,
    }
}

impl From<CandidateReceiptV2> for CandidateReceipt {
    /// Reads a receipt in the legacy layout.
    fn from(value: CandidateReceiptV2) -> (legacy: Self)
        ensures
            legacy@ == value@.legacy(),
    {
        let legacy = CandidateReceipt {
            descriptor: CandidateDescriptor::from(value.descriptor),
            commitments_hash: value.commitments_hash,
        };
        legacy
    }
}

impl vstd::std_specs::convert::FromSpecImpl<CandidateReceiptV2> for CandidateReceipt {
    open spec fn obeys_from_spec() -> bool {
        true
    }

    open spec fn from_spec(value: CandidateReceiptV2) -> Self {
        legacy_receipt_of(value)
    }
}

impl From<CommittedCandidateReceiptV2> for CommittedCandidateReceipt {
    /// Reads a receipt in the legacy layout.
    fn from(value: CommittedCandidateReceiptV2) -> (legacy: Self)
        ensures
            legacy@ == value@.legacy(),
    {
        CommittedCandidateReceipt {
            descriptor: CandidateDescriptor::from(value.descriptor),
            commitments: value.commitments,
        }
    }
}

impl vstd::std_specs::convert::FromSpecImpl<CommittedCandidateReceiptV2> for CommittedCandidateReceipt {
    open spec fn obeys_from_spec() -> bool {
        true
    }

    open spec fn from_spec(value: CommittedCandidateReceiptV2) -> Self {
        legacy_committed_receipt_of(value)
    }
}

} // verus!

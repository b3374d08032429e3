//! Candidate receipts, their canonical hash and the check of the core they claim.

use vstd::prelude::*;
use crate::commitments::{selected_core_of, CandidateCommitments, CommitmentsView};
use crate::decoding::{
    decoded_commitments, lemma_decode_encoded_commitments, lemma_encode_decoded_commitments,
};
use crate::descriptor::{
    lemma_decode_encoded, lemma_encode_decoded, lemma_encoding_length, CandidateDescriptorV2,
    CandidateDescriptorVersion, DecodeError, DescriptorView, DESCRIPTOR_SIZE,
};
use crate::hashing::{blake2_256, hash_bytes};
use crate::primitives::{CandidateHash, CoreIndex, H256};
use crate::wire::{get_array, put_bytes};

verus! {

/// Why a receipt does not fit the cores its parachain is assigned to.
#[derive(Clone, Copy, Debug, PartialEq, Eq, Structural)]
pub enum CandidateReceiptError {
    /// The selected core lies outside the assigned cores.
    InvalidCoreIndex,
    /// The core that the commitments select is not the one in the descriptor.
    CoreIndexMismatch,
    /// The core selector or the claim queue offset is invalid.
    InvalidSelectedCore,
    /// The parachain is assigned to no core at the claim queue offset.
    NoAssignment,
    /// The commitments select no core.
    NoCoreSelected,
}

/// Number of bytes in an encoded plain receipt.
pub const RECEIPT_SIZE: usize = 324;

/// A candidate receipt that holds the hash of the commitments in their place.
#[derive(Clone, Copy, Debug, PartialEq, Eq)]
pub struct CandidateReceiptV2 {
    /// The descriptor of the candidate.
    pub descriptor: CandidateDescriptorV2,
    /// The hash of the encoded commitments.
    pub commitments_hash: H256,
}

/// A candidate receipt with the commitments themselves.
#[derive(Clone, Debug, PartialEq, Eq)]
pub struct CommittedCandidateReceiptV2 {
    /// The descriptor of the candidate.
    pub descriptor: CandidateDescriptorV2,
    /// The commitments of the candidate.
    pub commitments: CandidateCommitments,
}

/// What a plain receipt holds.
#[verifier::ext_equal]
pub struct ReceiptView {
    /// The descriptor.
    pub descriptor: DescriptorView,
    /// The hash of the commitments, 32 bytes.
    pub commitments_hash: Seq<u8>,
}

/// What a committed receipt holds.
#[verifier::ext_equal]
pub struct CommittedReceiptView {
    /// The descriptor.
    pub descriptor: DescriptorView,
    /// The commitments.
    pub commitments: CommitmentsView,
}

impl ReceiptView {
    /// The receipt on the wire: the descriptor, then the hash of the commitments.
    pub open spec fn encoding(self) -> Seq<u8> {
        self.descriptor.encoding() + self.commitments_hash
    }

    /// The hash of the receipt.
    pub open spec fn hash_of(self) -> Seq<u8> {
        blake2_256(self.encoding())
    }

    /// The receipt that 324 bytes stand for: a descriptor and a hash.
    pub open spec fn decoded(bytes: Seq<u8>) -> ReceiptView
        recommends
            bytes.len() == RECEIPT_SIZE,
    {
        ReceiptView {
            descriptor: DescriptorView::decoded(bytes.take(DESCRIPTOR_SIZE as int)),
            commitments_hash: bytes.skip(DESCRIPTOR_SIZE as int),
        }
    }
}

impl CommittedReceiptView {
    /// The plain receipt of the same candidate: the commitments give way to their
    /// hash.
    pub open spec fn plain(self) -> ReceiptView {
        ReceiptView {
            descriptor: self.descriptor,
            commitments_hash: self.commitments.hash_of(),
        }
    }

    /// The canonical hash of the receipt, which is the hash of its plain form and
    /// not that of its own bytes.
    pub open spec fn hash_of(self) -> Seq<u8> {
        self.plain().hash_of()
    }

    /// The receipt on the wire: the descriptor, then the commitments.
    pub open spec fn encoding(self) -> Seq<u8> {
        self.descriptor.encoding() + self.commitments.encoding()
    }

    /// The receipt that `s` stands for, where it is a descriptor followed by the
    /// encoding of commitments and by nothing else.
    pub open spec fn decoded(s: Seq<u8>) -> Option<CommittedReceiptView> {
        if s.len() < DESCRIPTOR_SIZE {
            None
        } else {
            match decoded_commitments(s.skip(DESCRIPTOR_SIZE as int)) {
                Some(commitments) => Some(
                    CommittedReceiptView {
                        descriptor: DescriptorView::decoded(s.take(DESCRIPTOR_SIZE as int)),
                        commitments,
                    },
                ),
                None => None,
            }
        }
    }

    /// Whether a plain receipt is that of the same candidate: the same descriptor,
    /// and the hash of these commitments.
    pub open spec fn matches_plain(self, plain: ReceiptView) -> bool {
        plain.descriptor == self.descriptor && plain.commitments_hash
            == self.commitments.hash_of()
    }
}

impl View for CandidateReceiptV2 {
    type V = ReceiptView;

    open spec fn view(&self) -> ReceiptView {
        ReceiptView { descriptor: self.descriptor@, commitments_hash: self.commitments_hash@ }
    }
}

impl View for CommittedCandidateReceiptV2 {
    type V = CommittedReceiptView;

    open spec fn view(&self) -> CommittedReceiptView {
        CommittedReceiptView { descriptor: self.descriptor@, commitments: self.commitments@ }
    }
}

/// What the check of a receipt against the assigned cores comes to.
///
/// A legacy descriptor claims no core, so the check lets it pass. A descriptor in
/// the current layout needs an assigned core, a core selector among the upward
/// messages, and its core index at the place that the selector picks: the
/// selector modulo the number of assigned cores.
pub open spec fn check_outcome(
    descriptor: DescriptorView,
    upward_messages: Seq<Seq<u8>>,
    assigned_cores: Seq<CoreIndex>,
) -> Result<(), CandidateReceiptError> {
    if !descriptor.is_current() {
        Ok(())
    } else if assigned_cores.len() == 0 {
        Err(CandidateReceiptError::NoAssignment)
    } else {
        match selected_core_of(upward_messages) {
            None => Err(CandidateReceiptError::NoCoreSelected),
            Some((selector, _)) => {
                if assigned_cores[selector.0 as int % assigned_cores.len() as int] == CoreIndex(
                    descriptor.core_index as u32,
                ) {
                    Ok(())
                } else {
                    Err(CandidateReceiptError::CoreIndexMismatch)
                }
            },
        }
    }
}

impl CandidateReceiptV2 {
    /// The descriptor of the candidate.
    pub fn descriptor(&self) -> (descriptor: &CandidateDescriptorV2)
        ensures
            *descriptor == self.descriptor,
    {
        &self.descriptor
    }

    /// The receipt as it stands on the wire.
    pub fn encode(&self) -> (bytes: Vec<u8>)
        ensures
            bytes@ == self@.encoding(),
    {
        let mut bytes: Vec<u8> = Vec::new();
        self.descriptor.encode_to(&mut bytes);
        put_bytes(&mut bytes, self.commitments_hash.0.as_slice());
        assert(bytes@ =~= self@.encoding());
        bytes
    }

    /// Reads a receipt from exactly 324 bytes.
    pub fn decode(bytes: &[u8]) -> (decoded: Result<Self, DecodeError>)
        ensures
            decoded is Ok <==> bytes@.len() == RECEIPT_SIZE,
            decoded matches Ok(receipt) ==> receipt@ == ReceiptView::decoded(bytes@),
    {
        if bytes.len() != RECEIPT_SIZE {
            return Err(DecodeError);
        }
        assert(bytes@.subrange(0, 0 + DESCRIPTOR_SIZE) =~= bytes@.take(DESCRIPTOR_SIZE as int));
        assert(bytes@.subrange(DESCRIPTOR_SIZE as int, DESCRIPTOR_SIZE + 32) =~= bytes@.skip(
            DESCRIPTOR_SIZE as int,
        ));
        let descriptor = CandidateDescriptorV2::read(bytes, 0);
        let commitments_hash: [u8; 32] = get_array::<32>(bytes, DESCRIPTOR_SIZE);
        Ok(CandidateReceiptV2 { descriptor, commitments_hash: H256(commitments_hash) })
    }

    /// The hash of the receipt.
    pub fn hash(&self) -> (hash: CandidateHash)
        ensures
            hash.0@ == self@.hash_of(),
    {
        let bytes = self.encode();
        CandidateHash(hash_bytes(bytes.as_slice()))
    }
}

impl CommittedCandidateReceiptV2 {
    /// The plain receipt of this candidate.
    pub fn to_plain(&self) -> (plain: CandidateReceiptV2)
        requires
            self@.commitments.encodable(),
        ensures
            plain@ == self@.plain(),
            plain.descriptor == self.descriptor,
    {
        CandidateReceiptV2 {
            descriptor: self.descriptor,
            commitments_hash: self.commitments.hash(),
        }
    }

    /// The canonical hash of the receipt: that of its plain form.
    pub fn hash(&self) -> (hash: CandidateHash)
        requires
            self@.commitments.encodable(),
        ensures
            hash.0@ == self@.hash_of(),
            hash.0@ == self@.plain().hash_of(),
    {
        self.to_plain().hash()
    }

    /// Tells whether the plain receipt is that of this candidate.
    pub fn corresponds_to(&self, receipt: &CandidateReceiptV2) -> (same: bool)
        requires
            self@.commitments.encodable(),
        ensures
            same == self@.matches_plain(receipt@),
    {
        receipt.descriptor == self.descriptor && receipt.commitments_hash
            == self.commitments.hash()
    }

    /// The receipt as it stands on the wire.
    pub fn encode(&self) -> (bytes: Vec<u8>)
        requires
            self@.commitments.encodable(),
        ensures
            bytes@ == self@.encoding(),
    {
        let mut bytes: Vec<u8> = Vec::new();
        self.descriptor.encode_to(&mut bytes);
        self.commitments.encode_to(&mut bytes);
        assert(bytes@ =~= self@.encoding());
        bytes
    }

    /// Reads a receipt from bytes that hold it and nothing else.
    pub fn decode(bytes: &[u8]) -> (decoded: Result<Self, DecodeError>)
        ensures
            decoded is Ok <==> CommittedReceiptView::decoded(bytes@) is Some,
            decoded matches Ok(receipt) ==> CommittedReceiptView::decoded(bytes@) == Some(
                receipt@,
            ),
    {
        if bytes.len() < DESCRIPTOR_SIZE {
            return Err(DecodeError);
        }
        assert(bytes@.subrange(0, 0 + DESCRIPTOR_SIZE) =~= bytes@.take(DESCRIPTOR_SIZE as int));
        let descriptor = CandidateDescriptorV2::read(bytes, 0);
        match CandidateCommitments::read(bytes, DESCRIPTOR_SIZE) {
            Some((commitments, end)) => {
                if end == bytes.len() {
                    Ok(CommittedCandidateReceiptV2 { descriptor, commitments })
                } else {
                    Err(DecodeError)
                }
            },
            None => Err(DecodeError),
        }
    }

    /// Checks that the core index of the descriptor is the core that the
    /// commitments select among `assigned_cores`, the cores assigned to the
    /// parachain at the committed claim queue offset, in ascending order.
    pub fn check(&self, assigned_cores: &[CoreIndex]) -> (outcome: Result<
        (),
        CandidateReceiptError,
    >)
        ensures
            outcome == check_outcome(
                self@.descriptor,
                self@.commitments.upward_messages,
                assigned_cores@,
            ),
    {
        match self.descriptor.version() {
            CandidateDescriptorVersion::V1 => {
                return Ok(());
            },
            CandidateDescriptorVersion::V2 => {},
        }
        if assigned_cores.len() == 0 {
            return Err(CandidateReceiptError::NoAssignment);
        }
        let descriptor_core_index = match self.descriptor.core_index() {
            Some(core) => core,
            None => {
                return Err(CandidateReceiptError::InvalidCoreIndex);
            },
        };
        let (core_selector, _cq_offset) = match self.commitments.selected_core() {
            Some(selected) => selected,
            None => {
                return Err(CandidateReceiptError::NoCoreSelected);
            },
        };
        let at: usize = core_selector.0 as usize % assigned_cores.len();
        let core_index: CoreIndex = assigned_cores[at];
        if core_index.0 != descriptor_core_index.0 {
            return Err(CandidateReceiptError::CoreIndexMismatch);
        }
        Ok(())
    }
}

/// The check lets every legacy receipt pass, whatever it commits to and whatever
/// cores are assigned.
pub proof fn lemma_check_exempts_legacy(
    descriptor: DescriptorView,
    upward_messages: Seq<Seq<u8>>,
    assigned_cores: Seq<CoreIndex>,
)
    requires
        descriptor.version_of() == CandidateDescriptorVersion::V1,
    ensures
        check_outcome(descriptor, upward_messages, assigned_cores) == Ok::<
            (),
            CandidateReceiptError,
        >(()),
{
}

/// The check accepts a receipt in the current layout whose core index is the
/// assigned core that its selector picks.
pub proof fn lemma_check_accepts_selected_core(
    descriptor: DescriptorView,
    upward_messages: Seq<Seq<u8>>,
    assigned_cores: Seq<CoreIndex>,
)
    requires
        descriptor.version_of() == CandidateDescriptorVersion::V2,
        assigned_cores.len() > 0,
        selected_core_of(upward_messages) matches Some((selector, _)) && assigned_cores[selector.0
            as int % assigned_cores.len() as int] == CoreIndex(descriptor.core_index as u32),
    ensures
        check_outcome(descriptor, upward_messages, assigned_cores) == Ok::<
            (),
            CandidateReceiptError,
        >(()),
{
}

/// The check refuses a receipt in the current layout whose core index is another
/// than the assigned core that its selector picks.
pub proof fn lemma_check_refuses_other_core(
    descriptor: DescriptorView,
    upward_messages: Seq<Seq<u8>>,
    assigned_cores: Seq<CoreIndex>,
)
    requires
        descriptor.version_of() == CandidateDescriptorVersion::V2,
        assigned_cores.len() > 0,
        selected_core_of(upward_messages) matches Some((selector, _)) && assigned_cores[selector.0
            as int % assigned_cores.len() as int] != CoreIndex(descriptor.core_index as u32),
    ensures
        check_outcome(descriptor, upward_messages, assigned_cores) == Err::<
            (),
            CandidateReceiptError,
        >(CandidateReceiptError::CoreIndexMismatch),
{
}

/// The check never answers that the selected core lies outside the assigned
/// cores, nor that the selection is invalid: the selector is reduced modulo their
/// number.
pub proof fn lemma_check_errors(
    descriptor: DescriptorView,
    upward_messages: Seq<Seq<u8>>,
    assigned_cores: Seq<CoreIndex>,
)
    ensures
        check_outcome(descriptor, upward_messages, assigned_cores) != Err::<
            (),
            CandidateReceiptError,
        >(CandidateReceiptError::InvalidCoreIndex),
        check_outcome(descriptor, upward_messages, assigned_cores) != Err::<
            (),
            CandidateReceiptError,
        >(CandidateReceiptError::InvalidSelectedCore),
{
}

/// Encoding a receipt and decoding the bytes gives the same receipt again.
pub proof fn lemma_decode_encoded_receipt(receipt: CommittedReceiptView)
    requires
        receipt.descriptor.well_formed(),
        receipt.commitments.encodable(),
    ensures
        CommittedReceiptView::decoded(receipt.encoding()) == Some(receipt),
{
    let s = receipt.encoding();
    lemma_encoding_length(receipt.descriptor);
    lemma_decode_encoded(receipt.descriptor);
    lemma_decode_encoded_commitments(receipt.commitments);
    assert(s.take(DESCRIPTOR_SIZE as int) =~= receipt.descriptor.encoding());
    assert(s.skip(DESCRIPTOR_SIZE as int) =~= receipt.commitments.encoding());
}

/// Bytes that decode to a receipt are the encoding of that receipt.
pub proof fn lemma_encode_decoded_receipt(s: Seq<u8>)
    requires
        CommittedReceiptView::decoded(s) is Some,
    ensures
        CommittedReceiptView::decoded(s)->0.descriptor.well_formed(),
        CommittedReceiptView::decoded(s)->0.commitments.encodable(),
        CommittedReceiptView::decoded(s)->0.encoding() == s,
{
    let receipt = CommittedReceiptView::decoded(s)->0;
    lemma_encode_decoded(s.take(DESCRIPTOR_SIZE as int));
    lemma_encode_decoded_commitments(s.skip(DESCRIPTOR_SIZE as int));
    assert(receipt.encoding() =~= s.take(DESCRIPTOR_SIZE as int) + s.skip(
        DESCRIPTOR_SIZE as int,
    ));
    assert(s.take(DESCRIPTOR_SIZE as int) + s.skip(DESCRIPTOR_SIZE as int) =~= s);
}

/// Decoding 324 bytes as a plain receipt and encoding the result gives the same
/// bytes again.
pub proof fn lemma_encode_decoded_plain(bytes: Seq<u8>)
    requires
        bytes.len() == RECEIPT_SIZE,
    ensures
        ReceiptView::decoded(bytes).encoding() == bytes,
{
    lemma_encode_decoded(bytes.take(DESCRIPTOR_SIZE as int));
    assert(bytes.take(DESCRIPTOR_SIZE as int) + bytes.skip(DESCRIPTOR_SIZE as int) =~= bytes);
}

/// A committed receipt and its plain form have the same hash.
pub proof fn lemma_hash_is_plain_hash(receipt: CommittedReceiptView)
    ensures
        receipt.hash_of() == receipt.plain().hash_of(),
        receipt.matches_plain(receipt.plain()),
{
}

} // verus!

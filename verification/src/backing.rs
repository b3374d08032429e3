//! A candidate together with the votes that back it.
//!
//! The bit field of a backed candidate has one bit per validator of the backing
//! group. Where elastic scaling is enabled, eight more bits follow, which hold
//! the index of the core that the candidate was backed on.

use vstd::prelude::*;
use crate::bitfield::{bits_value, byte_bits, lemma_byte_bits_value, max_bits, Bitfield};
use crate::descriptor::CandidateDescriptorV2;
use crate::primitives::{CandidateHash, CoreIndex, ValidityAttestation};
use crate::receipt::{CandidateReceiptV2, CommittedCandidateReceiptV2, CommittedReceiptView};

verus! {

/// A backed (or backable) candidate.
#[derive(Clone, Debug, PartialEq, Eq)]
pub struct BackedCandidate {
    candidate: CommittedCandidateReceiptV2,
    validity_votes: Vec<ValidityAttestation>,
    validator_indices: Bitfield,
}

/// What a backed candidate holds.
#[verifier::ext_equal]
pub struct BackedCandidateView {
    /// The candidate.
    pub candidate: CommittedReceiptView,
    /// The votes, as signatures.
    pub validity_votes: Seq<ValidityAttestation>,
    /// The bits of the validators that voted, with the eight bits of the core
    /// index behind them where one was injected.
    pub validator_indices: Seq<bool>,
}

/// The bits with the low byte of a core index behind them, where one is given.
pub open spec fn with_core_index(bits: Seq<bool>, core_index: Option<CoreIndex>) -> Seq<bool> {
    match core_index {
        Some(core) => bits + byte_bits((core.0 % 256) as u8),
        None => bits,
    }
}

/// The validators' bits and the core index that a bit field holds.
///
/// Where the core index is enabled and there are eight bits to take, the last
/// eight bits are the core index and the bits before them the validators'.
/// Otherwise all bits are the validators' and there is no core index.
pub open spec fn split_core_index(bits: Seq<bool>, core_index_enabled: bool) -> (
    Seq<bool>,
    Option<CoreIndex>,
) {
    if core_index_enabled && bits.len() >= 8 {
        (
            bits.take(bits.len() - 8),
            Some(CoreIndex(bits_value(bits.skip(bits.len() - 8)) as u32)),
        )
    } else {
        (bits, None)
    }
}

/// Injecting a core index and splitting it off again gives the bits as they
/// were and the low byte of the core index, however many bits there were.
pub proof fn lemma_core_index_round_trip(bits: Seq<bool>, core_index: CoreIndex)
    ensures
        split_core_index(with_core_index(bits, Some(core_index)), true) == (
            bits,
            Some(CoreIndex(core_index.0 % 256)),
        ),
        core_index.0 < 256 ==> split_core_index(with_core_index(bits, Some(core_index)), true)
            == (bits, Some(core_index)),
{
    let byte = (core_index.0 % 256) as u8;
    let all = with_core_index(bits, Some(core_index));
    lemma_byte_bits_value(byte);
    assert(all.take(all.len() - 8) =~= bits);
    assert(all.skip(all.len() - 8) =~= byte_bits(byte));
}

/// With the core index disabled, or with fewer than eight bits, every bit is a
/// validator's.
pub proof fn lemma_no_core_index(bits: Seq<bool>, core_index_enabled: bool)
    requires
        !core_index_enabled || bits.len() < 8,
    ensures
        split_core_index(bits, core_index_enabled) == (bits, None::<CoreIndex>),
{
}

/// A candidate that was built with a core index behind its validators' bits
/// hands both back when it is asked with the core index enabled: the bits as
/// they were given, however many there were, and the low byte of the core index.
pub proof fn lemma_backed_core_index_round_trip(
    built: BackedCandidateView,
    bits: Seq<bool>,
    core_index: CoreIndex,
)
    requires
        built.validator_indices == with_core_index(bits, Some(core_index)),
    ensures
        split_core_index(built.validator_indices, true) == (
            bits,
            Some(CoreIndex(core_index.0 % 256)),
        ),
        core_index.0 < 256 ==> split_core_index(built.validator_indices, true) == (
            bits,
            Some(core_index),
        ),
{
    lemma_core_index_round_trip(bits, core_index);
}

impl View for BackedCandidate {
    type V = BackedCandidateView;

    closed spec fn view(&self) -> BackedCandidateView {
        BackedCandidateView {
            candidate: self.candidate@,
            validity_votes: self.validity_votes@,
            validator_indices: self.validator_indices@,
        }
    }
}

impl BackedCandidate {
    /// Builds a backed candidate. Where a core index is given, its low byte is
    /// put behind the validators' bits.
    pub fn new(
        candidate: CommittedCandidateReceiptV2,
        validity_votes: Vec<ValidityAttestation>,
        validator_indices: Bitfield,
        core_index: Option<CoreIndex>,
    ) -> (backed: Self)
        requires
            core_index is Some ==> validator_indices@.len() + 8 <= max_bits(),
        ensures
            backed@ == (BackedCandidateView {
                candidate: candidate@,
                validity_votes: validity_votes@,
                validator_indices: with_core_index(validator_indices@, core_index),
            }),
    {
        let mut instance = Self { candidate, validity_votes, validator_indices };
        if let Some(core_index) = core_index {
            instance.inject_core_index(core_index);
        }
        instance
    }

    /// The committed receipt of the candidate.
    pub fn candidate(&self) -> (candidate: &CommittedCandidateReceiptV2)
        ensures
            candidate@ == self@.candidate,
    {
        &self.candidate
    }

    /// The descriptor of the candidate.
    pub fn descriptor(&self) -> (descriptor: &CandidateDescriptorV2)
        ensures
            descriptor@ == self@.candidate.descriptor,
    {
        &self.candidate.descriptor
    }

    /// The votes for the candidate.
    pub fn validity_votes(&self) -> (votes: &[ValidityAttestation])
        ensures
            votes@ == self@.validity_votes,
    {
        self.validity_votes.as_slice()
    }

    /// The votes for the candidate, to add to or to change.
    pub fn validity_votes_mut(&mut self) -> (votes: &mut Vec<ValidityAttestation>)
        ensures
            votes@ == old(self)@.validity_votes,
            final(self)@ == (BackedCandidateView {
                validity_votes: final(votes)@,
                ..old(self)@
            }),
    {
        &mut self.validity_votes
    }

    /// The canonical hash of the candidate.
    pub fn hash(&self) -> (hash: CandidateHash)
        requires
            self@.candidate.commitments.encodable(),
        ensures
            hash.0@ == self@.candidate.hash_of(),
    {
        self.candidate.to_plain().hash()
    }

    /// The plain receipt of the candidate.
    pub fn receipt(&self) -> (receipt: CandidateReceiptV2)
        requires
            self@.candidate.commitments.encodable(),
        ensures
            receipt@ == self@.candidate.plain(),
    {
        self.candidate.to_plain()
    }

    /// A copy of the validators' bits, and the core index where the bit field
    /// holds one.
    pub fn validator_indices_and_core_index(&self, core_index_enabled: bool) -> (parts: (
        Bitfield,
        Option<CoreIndex>,
    ))
        ensures
            (parts.0@, parts.1) == split_core_index(self@.validator_indices, core_index_enabled),
    {
        if core_index_enabled {
            let len: usize = self.validator_indices.len();
            if len >= 8 {
                let core_idx_offset: usize = len - 8;
                let validator_indices = self.validator_indices.prefix(core_idx_offset);
                let core_idx: u8 = self.validator_indices.last_byte();
                return (validator_indices, Some(CoreIndex(core_idx as u32)));
            }
        }
        (self.validator_indices.clone(), None)
    }

    /// Puts the low byte of a core index behind the bits.
    fn inject_core_index(&mut self, core_index: CoreIndex)
        requires
            old(self)@.validator_indices.len() + 8 <= max_bits(),
        ensures
            final(self)@ == (BackedCandidateView {
                validator_indices: with_core_index(old(self)@.validator_indices, Some(core_index)),
                ..old(self)@
            }),
    {
        self.validator_indices.push_byte((core_index.0 % 256) as u8);
    }

    /// Replaces the validators' bits. Where a core index is given, its low byte
    /// is put behind them.
    pub fn set_validator_indices_and_core_index(
        &mut self,
        new_indices: Bitfield,
        maybe_core_index: Option<CoreIndex>,
    )
        requires
            maybe_core_index is Some ==> new_indices@.len() + 8 <= max_bits(),
        ensures
            final(self)@ == (BackedCandidateView {
                validator_indices: with_core_index(new_indices@, maybe_core_index),
                ..old(self)@
            }),
    {
        self.validator_indices = new_indices;
        if let Some(core_index) = maybe_core_index {
            self.inject_core_index(core_index);
        }
    }
}

} // verus!

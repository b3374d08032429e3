//! What the relay chain records about candidates and cores: the events of a
//! candidate, the state of a core, the votes scraped from a block and the
//! inherent data of a block. Each has a legacy form, which differs in the layout
//! of the descriptors it holds.

use vstd::prelude::*;
use crate::backing::BackedCandidate;
use crate::bitfield::Bitfield;
use crate::descriptor::CandidateDescriptorV2;
use crate::legacy::{legacy_descriptor_of, legacy_receipt_of, CandidateDescriptor, CandidateReceipt};
use crate::primitives::{
    BlockNumber, CandidateHash, CoreIndex, GroupIndex, HeadData, ScheduledCore, SessionIndex,
    ValidatorIndex, ValidityAttestation,
};
use crate::receipt::CandidateReceiptV2;

verus! {

/// An event concerning a candidate.
#[derive(Clone, Debug, PartialEq, Eq)]
pub enum CandidateEvent {
    /// The candidate was backed in the most recent block, on the given core and by
    /// the given group.
    CandidateBacked(CandidateReceiptV2, HeadData, CoreIndex, GroupIndex),
    /// The candidate was included in the most recent block. It had occupied the
    /// given core and was backed by the given group.
    CandidateIncluded(CandidateReceiptV2, HeadData, CoreIndex, GroupIndex),
    /// The candidate was not made available in time. It had occupied the given
    /// core.
    CandidateTimedOut(CandidateReceiptV2, HeadData, CoreIndex),
}

/// An event concerning a candidate, with a legacy receipt.
#[derive(Clone, Debug, PartialEq, Eq)]
pub enum LegacyCandidateEvent {
    /// The candidate was backed in the most recent block.
    CandidateBacked(CandidateReceipt, HeadData, CoreIndex, GroupIndex),
    /// The candidate was included in the most recent block.
    CandidateIncluded(CandidateReceipt, HeadData, CoreIndex, GroupIndex),
    /// The candidate was not made available in time.
    CandidateTimedOut(CandidateReceipt, HeadData, CoreIndex),
}

impl From<CandidateEvent> for LegacyCandidateEvent {
    /// The same event with its receipt in the legacy layout.
    fn from(value: CandidateEvent) -> (legacy: Self)
        ensures
            match value {
                CandidateEvent::CandidateBacked(receipt, head_data, core_index, group_index) => {
                    &&& legacy matches LegacyCandidateEvent::CandidateBacked(r, h, c, g)
                    &&& r@ == receipt@.legacy()
                    &&& h == head_data
                    &&& c == core_index
                    &&& g == group_index
                },
                CandidateEvent::CandidateIncluded(receipt, head_data, core_index, group_index) => {
                    &&& legacy matches LegacyCandidateEvent::CandidateIncluded(r, h, c, g)
                    &&& r@ == receipt@.legacy()
                    &&& h == head_data
                    &&& c == core_index
                    &&& g == group_index
                },
                CandidateEvent::CandidateTimedOut(receipt, head_data, core_index) => {
                    &&& legacy matches LegacyCandidateEvent::CandidateTimedOut(r, h, c)
                    &&& r@ == receipt@.legacy()
                    &&& h == head_data
                    &&& c == core_index
                },
            },
    {
        match value {
            CandidateEvent::CandidateBacked(receipt, head_data, core_index, group_index) => {
                LegacyCandidateEvent::CandidateBacked(
                    CandidateReceipt::from(receipt),
                    head_data,
                    core_index,
                    group_index,
                )
            },
            CandidateEvent::CandidateIncluded(receipt, head_data, core_index, group_index) => {
                LegacyCandidateEvent::CandidateIncluded(
                    CandidateReceipt::from(receipt),
                    head_data,
                    core_index,
                    group_index,
                )
            },
            CandidateEvent::CandidateTimedOut(receipt, head_data, core_index) => {
                LegacyCandidateEvent::CandidateTimedOut(
                    CandidateReceipt::from(receipt),
                    head_data,
                    core_index,
                )
            },
        }
    }
}

impl vstd::std_specs::convert::FromSpecImpl<CandidateEvent> for LegacyCandidateEvent {
    open spec fn obeys_from_spec() -> bool {
        true
    }

    open spec fn from_spec(value: CandidateEvent) -> Self {
        match value {
            CandidateEvent::CandidateBacked(receipt, head_data, core_index, group_index) => {
                LegacyCandidateEvent::CandidateBacked(
                    legacy_receipt_of(receipt),
                    head_data,
                    core_index,
                    group_index,
                )
            },
            CandidateEvent::CandidateIncluded(receipt, head_data, core_index, group_index) => {
                LegacyCandidateEvent::CandidateIncluded(
                    legacy_receipt_of(receipt),
                    head_data,
                    core_index,
                    group_index,
                )
            },
            CandidateEvent::CandidateTimedOut(receipt, head_data, core_index) => {
                LegacyCandidateEvent::CandidateTimedOut(
                    legacy_receipt_of(receipt),
                    head_data,
                    core_index,
                )
            },
        }
    }
}

/// A core that a candidate occupies while it waits to become available.
#[derive(Clone, Debug, PartialEq, Eq)]
pub struct OccupiedCore {
    /// What is scheduled on the core next if the candidate becomes available.
    pub next_up_on_available: Option<ScheduledCore>,
    /// The relay-chain block at which the candidate began to occupy the core.
    pub occupied_since: BlockNumber,
    /// The relay-chain block at which the candidate times out.
    pub time_out_at: BlockNumber,
    /// What is scheduled on the core next if the candidate times out.
    pub next_up_on_time_out: Option<ScheduledCore>,
    /// One bit per validator: whether it has attested that the candidate is
    /// available.
    pub availability: Bitfield,
    /// The group that backed the candidate and distributes its pieces.
    pub group_responsible: GroupIndex,
    /// The hash of the candidate.
    pub candidate_hash: CandidateHash,
    /// The descriptor of the candidate.
    pub candidate_descriptor: CandidateDescriptorV2,
}

/// An occupied core with the descriptor of its candidate in the legacy layout.
#[derive(Clone, Debug, PartialEq, Eq)]
pub struct LegacyOccupiedCore {
    /// What is scheduled on the core next if the candidate becomes available.
    pub next_up_on_available: Option<ScheduledCore>,
    /// The relay-chain block at which the candidate began to occupy the core.
    pub occupied_since: BlockNumber,
    /// The relay-chain block at which the candidate times out.
    pub time_out_at: BlockNumber,
    /// What is scheduled on the core next if the candidate times out.
    pub next_up_on_time_out: Option<ScheduledCore>,
    /// One bit per validator: whether it has attested that the candidate is
    /// available.
    pub availability: Bitfield,
    /// The group that backed the candidate and distributes its pieces.
    pub group_responsible: GroupIndex,
    /// The hash of the candidate.
    pub candidate_hash: CandidateHash,
    /// The descriptor of the candidate.
    pub candidate_descriptor: CandidateDescriptor,
}

impl From<OccupiedCore> for LegacyOccupiedCore {
    /// The same core with the descriptor in the legacy layout.
    fn from(value: OccupiedCore) -> (legacy: Self)
        ensures
            legacy.next_up_on_available == value.next_up_on_available,
            legacy.occupied_since == value.occupied_since,
            legacy.time_out_at == value.time_out_at,
            legacy.next_up_on_time_out == value.next_up_on_time_out,
            legacy.availability == value.availability,
            legacy.group_responsible == value.group_responsible,
            legacy.candidate_hash == value.candidate_hash,
            legacy.candidate_descriptor@ == value.candidate_descriptor@.legacy(),
    {
        LegacyOccupiedCore {
            next_up_on_available: value.next_up_on_available,
            occupied_since: value.occupied_since,
            time_out_at: value.time_out_at,
            next_up_on_time_out: value.next_up_on_time_out,
            availability: value.availability,
            group_responsible: value.group_responsible,
            candidate_hash: value.candidate_hash,
            candidate_descriptor: CandidateDescriptor::from(value.candidate_descriptor),
        }
    }
}

impl vstd::std_specs::convert::FromSpecImpl<OccupiedCore> for LegacyOccupiedCore {
    open spec fn obeys_from_spec() -> bool {
        true
    }

    open spec fn from_spec(value: OccupiedCore) -> Self {
        legacy_occupied_core_of(value)
    }
}

/// The legacy form of an occupied core.
pub open spec fn legacy_occupied_core_of(value: OccupiedCore) -> LegacyOccupiedCore {
    LegacyOccupiedCore {
            next_up_on_available: value.next_up_on_available,
            occupied_since: value.occupied_since,
            time_out_at: value.time_out_at,
            next_up_on_time_out: value.next_up_on_time_out,
            availability: value.availability,
            group_responsible: value.group_responsible,
            candidate_hash: value.candidate_hash,
        candidate_descriptor: legacy_descriptor_of(value.candidate_descriptor),
    }
}

/// The state of an availability core.
#[derive(Clone, Debug, PartialEq, Eq)]
pub enum CoreState {
    /// A candidate occupies the core.
    Occupied(OccupiedCore),
    /// The core is free and a parachain is scheduled on it, which may occupy it.
    Scheduled(ScheduledCore),
    /// The core is free and nothing is scheduled on it.
    Free,
}

/// The state of an availability core, with legacy descriptors.
#[derive(Clone, Debug, PartialEq, Eq)]
pub enum LegacyCoreState {
    /// A candidate occupies the core.
    Occupied(LegacyOccupiedCore),
    /// The core is free and a parachain is scheduled on it.
    Scheduled(ScheduledCore),
    /// The core is free and nothing is scheduled on it.
    Free,
}

impl From<CoreState> for LegacyCoreState {
    /// The same state with the descriptor in the legacy layout.
    fn from(value: CoreState) -> (legacy: Self) {
        match value {
            CoreState::Free => LegacyCoreState::Free,
            CoreState::Scheduled(core) => LegacyCoreState::Scheduled(core),
            CoreState::Occupied(occupied_core) => LegacyCoreState::Occupied(
                LegacyOccupiedCore::from(occupied_core),
            ),
        }
    }
}

impl vstd::std_specs::convert::FromSpecImpl<CoreState> for LegacyCoreState {
    open spec fn obeys_from_spec() -> bool {
        true
    }

    open spec fn from_spec(value: CoreState) -> Self {
        match value {
            CoreState::Free => LegacyCoreState::Free,
            CoreState::Scheduled(core) => LegacyCoreState::Scheduled(core),
            CoreState::Occupied(occupied_core) => LegacyCoreState::Occupied(
                legacy_occupied_core_of(occupied_core),
            ),
        }
    }
}

/// The backing votes and the disputes that were scraped from a block.
#[derive(Clone, Debug, PartialEq)]
pub struct ScrapedOnChainVotes<Disputes> {
    /// The session in which the block was included.
    pub session: SessionIndex,
    /// For each candidate, by its receipt, the validators that backed it.
    pub backing_validators_per_candidate: Vec<
        (CandidateReceiptV2, Vec<(ValidatorIndex, ValidityAttestation)>),
    >,
    /// The disputes that the block recorded. They need not concern the
    /// candidates above.
    pub disputes: Disputes,
}

/// Scraped votes with legacy receipts.
#[derive(Clone, Debug, PartialEq)]
pub struct LegacyScrapedOnChainVotes<Disputes> {
    /// The session in which the block was included.
    pub session: SessionIndex,
    /// For each candidate, by its receipt, the validators that backed it.
    pub backing_validators_per_candidate: Vec<
        (CandidateReceipt, Vec<(ValidatorIndex, ValidityAttestation)>),
    >,
    /// The disputes that the block recorded.
    pub disputes: Disputes,
}

/// Whether legacy backing votes are the given ones with each receipt read in the
/// legacy layout, in the same order and with the same validators.
pub open spec fn same_backing(
    legacy: Seq<(CandidateReceipt, Vec<(ValidatorIndex, ValidityAttestation)>)>,
    current: Seq<(CandidateReceiptV2, Vec<(ValidatorIndex, ValidityAttestation)>)>,
) -> bool {
    &&& legacy.len() == current.len()
    &&& forall|i: int|
        0 <= i < current.len() ==> (#[trigger] legacy[i]).0@ == current[i].0@.legacy()
            && legacy[i].1 == current[i].1
}

impl<Disputes> From<ScrapedOnChainVotes<Disputes>> for LegacyScrapedOnChainVotes<Disputes> {
    /// The same votes with each receipt in the legacy layout.
    fn from(value: ScrapedOnChainVotes<Disputes>) -> (legacy: Self)
        ensures
            legacy.session == value.session,
            legacy.disputes == value.disputes,
            same_backing(
                legacy.backing_validators_per_candidate@,
                value.backing_validators_per_candidate@,
            ),
    {
        let ghost current = value.backing_validators_per_candidate@;
        let mut rest = value.backing_validators_per_candidate;
        let mut reversed: Vec<(CandidateReceipt, Vec<(ValidatorIndex, ValidityAttestation)>)> =
            Vec::new();
        while rest.len() > 0
            invariant
                rest@.len() + reversed@.len() == current.len(),
                rest@ == current.take(rest@.len() as int),
                forall|j: int|
                    0 <= j < reversed@.len() ==> (#[trigger] reversed@[j]).0@ == current[current.len()
                        - 1 - j].0@.legacy() && reversed@[j].1 == current[current.len() - 1 - j].1,
            decreases rest@.len(),
        {
            let ghost before = rest@;
            match rest.pop() {
                Some((receipt, validators)) => {
                    assert(before[before.len() - 1] == current[before.len() - 1]);
                    reversed.push((CandidateReceipt::from(receipt), validators));
                    assert(rest@ =~= current.take(rest@.len() as int));
                },
                None => {},
            }
        }
        let ghost turned = reversed@;
        let mut backing: Vec<(CandidateReceipt, Vec<(ValidatorIndex, ValidityAttestation)>)> =
            Vec::new();
        while reversed.len() > 0
            invariant
                turned.len() == current.len(),
                backing@.len() + reversed@.len() == current.len(),
                reversed@ == turned.take(reversed@.len() as int),
                forall|j: int|
                    0 <= j < turned.len() ==> (#[trigger] turned[j]).0@ == current[current.len() - 1
                        - j].0@.legacy() && turned[j].1 == current[current.len() - 1 - j].1,
                forall|i: int|
                    0 <= i < backing@.len() ==> (#[trigger] backing@[i]).0@ == current[i].0@.legacy()
                        && backing@[i].1 == current[i].1,
            decreases reversed@.len(),
        {
            let ghost before = reversed@;
            match reversed.pop() {
                Some(entry) => {
                    assert(before[before.len() - 1] == turned[before.len() - 1]);
                    backing.push(entry);
                    assert(reversed@ =~= turned.take(reversed@.len() as int));
                },
                None => {},
            }
        }
        LegacyScrapedOnChainVotes {
            session: value.session,
            backing_validators_per_candidate: backing,
            disputes: value.disputes,
        }
    }
}

impl<Disputes> vstd::std_specs::convert::FromSpecImpl<ScrapedOnChainVotes<Disputes>> for LegacyScrapedOnChainVotes<Disputes> {
    open spec fn obeys_from_spec() -> bool {
        false
    }

    open spec fn from_spec(value: ScrapedOnChainVotes<Disputes>) -> Self {
        arbitrary()
    }
}

/// The inherent data of parachains that a block author hands to the runtime.
#[derive(Clone, Debug, PartialEq)]
pub struct InherentData<Bitfields, Disputes, Header> {
    /// The availability bit fields that validators signed.
    pub bitfields: Bitfields,
    /// The backed candidates for inclusion in the block.
    pub backed_candidates: Vec<BackedCandidate>,
    /// The dispute statements for inclusion.
    pub disputes: Disputes,
    /// The header of the parent block, against which state proofs are checked.
    pub parent_header: Header,
}

} // verus!

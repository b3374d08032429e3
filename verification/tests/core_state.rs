use candidate_primitives::bitfield::Bitfield;
use candidate_primitives::core_state::{
    CandidateEvent, CoreState, InherentData, LegacyCandidateEvent, LegacyCoreState,
    LegacyOccupiedCore, LegacyScrapedOnChainVotes, OccupiedCore, ScrapedOnChainVotes,
};
use candidate_primitives::descriptor::CandidateDescriptorV2;
use candidate_primitives::legacy::{CandidateDescriptor, CandidateReceipt};
use candidate_primitives::primitives::{
    CandidateHash, CoreIndex, GroupIndex, HeadData, ParaId, ScheduledCore, ValidationCodeHash,
    ValidatorIndex, ValidatorSignature, ValidityAttestation, H256,
};
use candidate_primitives::receipt::CandidateReceiptV2;

fn descriptor(para: u32, core: u32) -> CandidateDescriptorV2 {
    let h = H256([3u8; 32]);
    CandidateDescriptorV2::new(
        ParaId::new(para),
        h,
        CoreIndex(core),
        4,
        h,
        h,
        h,
        h,
        ValidationCodeHash(h),
    )
}

fn receipt(para: u32) -> CandidateReceiptV2 {
    CandidateReceiptV2 { descriptor: descriptor(para, 2), commitments_hash: H256([8u8; 32]) }
}

#[test]
fn candidate_events_keep_their_fields_in_the_legacy_form() {
    let head = HeadData(vec![1, 2]);
    let backed = CandidateEvent::CandidateBacked(receipt(1), head.clone(), CoreIndex(2), GroupIndex(3));
    assert_eq!(
        LegacyCandidateEvent::from(backed),
        LegacyCandidateEvent::CandidateBacked(
            CandidateReceipt::from(receipt(1)),
            head.clone(),
            CoreIndex(2),
            GroupIndex(3)
        )
    );
    let included =
        CandidateEvent::CandidateIncluded(receipt(5), head.clone(), CoreIndex(6), GroupIndex(7));
    assert_eq!(
        LegacyCandidateEvent::from(included),
        LegacyCandidateEvent::CandidateIncluded(
            CandidateReceipt::from(receipt(5)),
            head.clone(),
            CoreIndex(6),
            GroupIndex(7)
        )
    );
    let timed_out = CandidateEvent::CandidateTimedOut(receipt(9), head.clone(), CoreIndex(1));
    assert_eq!(
        LegacyCandidateEvent::from(timed_out),
        LegacyCandidateEvent::CandidateTimedOut(
            CandidateReceipt::from(receipt(9)),
            head,
            CoreIndex(1)
        )
    );
}

fn occupied() -> OccupiedCore {
    OccupiedCore {
        next_up_on_available: Some(ScheduledCore { para_id: ParaId::new(4), collator: None }),
        occupied_since: 10,
        time_out_at: 20,
        next_up_on_time_out: None,
        availability: Bitfield::from_bools(&[true, false, true]),
        group_responsible: GroupIndex(2),
        candidate_hash: CandidateHash(H256([1u8; 32])),
        candidate_descriptor: descriptor(4, 2),
    }
}

#[test]
fn occupied_core_keeps_its_fields_in_the_legacy_form() {
    let legacy = LegacyOccupiedCore::from(occupied());
    assert_eq!(legacy.next_up_on_available, occupied().next_up_on_available);
    assert_eq!(legacy.occupied_since, 10);
    assert_eq!(legacy.time_out_at, 20);
    assert_eq!(legacy.next_up_on_time_out, None);
    assert_eq!(legacy.availability.to_bools(), vec![true, false, true]);
    assert_eq!(legacy.group_responsible, GroupIndex(2));
    assert_eq!(legacy.candidate_hash, CandidateHash(H256([1u8; 32])));
    assert_eq!(legacy.candidate_descriptor, CandidateDescriptor::from(descriptor(4, 2)));
    assert_eq!(legacy.candidate_descriptor.encode(), descriptor(4, 2).encode());
}

#[test]
fn core_states_keep_their_kind_in_the_legacy_form() {
    assert_eq!(LegacyCoreState::from(CoreState::Free), LegacyCoreState::Free);
    let scheduled = ScheduledCore { para_id: ParaId::new(4), collator: None };
    assert_eq!(
        LegacyCoreState::from(CoreState::Scheduled(scheduled)),
        LegacyCoreState::Scheduled(scheduled)
    );
    assert_eq!(
        LegacyCoreState::from(CoreState::Occupied(occupied())),
        LegacyCoreState::Occupied(LegacyOccupiedCore::from(occupied()))
    );
}

#[test]
fn scraped_votes_keep_their_order_in_the_legacy_form() {
    let vote = |i: u8| (ValidatorIndex(i as u32), ValidityAttestation::Implicit(ValidatorSignature([i; 64])));
    let votes = ScrapedOnChainVotes {
        session: 3,
        backing_validators_per_candidate: vec![
            (receipt(1), vec![vote(1), vote(2)]),
            (receipt(2), vec![]),
            (receipt(3), vec![vote(3)]),
        ],
        disputes: vec![1u8, 2, 3],
    };
    let legacy = LegacyScrapedOnChainVotes::from(votes.clone());
    assert_eq!(legacy.session, 3);
    assert_eq!(legacy.disputes, vec![1u8, 2, 3]);
    assert_eq!(
        legacy.backing_validators_per_candidate,
        vec![
            (CandidateReceipt::from(receipt(1)), vec![vote(1), vote(2)]),
            (CandidateReceipt::from(receipt(2)), vec![]),
            (CandidateReceipt::from(receipt(3)), vec![vote(3)]),
        ]
    );
    let none: ScrapedOnChainVotes<()> =
        ScrapedOnChainVotes { session: 0, backing_validators_per_candidate: vec![], disputes: () };
    assert_eq!(LegacyScrapedOnChainVotes::from(none).backing_validators_per_candidate, vec![]);
}

#[test]
fn inherent_data_holds_its_parts() {
    let data = InherentData {
        bitfields: vec![1u8],
        backed_candidates: vec![],
        disputes: (),
        parent_header: 7u32,
    };
    assert_eq!(data.clone(), data);
    assert_eq!(data.parent_header, 7);
}

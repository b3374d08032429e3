use candidate_primitives::backing::BackedCandidate;
use candidate_primitives::bitfield::Bitfield;
use candidate_primitives::commitments::CandidateCommitments;
use candidate_primitives::descriptor::CandidateDescriptorV2;
use candidate_primitives::primitives::{
    CoreIndex, HeadData, ParaId, ValidationCodeHash, ValidatorSignature, ValidityAttestation, H256,
};
use candidate_primitives::receipt::CommittedCandidateReceiptV2;

fn candidate() -> CommittedCandidateReceiptV2 {
    let zeros = H256::zero();
    CommittedCandidateReceiptV2 {
        descriptor: CandidateDescriptorV2::new(
            ParaId::new(5),
            zeros,
            CoreIndex(1),
            2,
            zeros,
            zeros,
            zeros,
            zeros,
            ValidationCodeHash(zeros),
        ),
        commitments: CandidateCommitments {
            upward_messages: vec![],
            horizontal_messages: vec![],
            new_validation_code: None,
            head_data: HeadData(vec![1, 2, 3]),
            processed_downward_messages: 0,
            hrmp_watermark: 0,
        },
    }
}

#[test]
fn bitfield_keeps_its_bits() {
    let bits = vec![true, false, false, true, true, false, true, false, true];
    let field = Bitfield::from_bools(&bits);
    assert_eq!(field.len(), 9);
    assert_eq!(field.to_bools(), bits);
    assert_eq!(field.get(0), Some(true));
    assert_eq!(field.get(1), Some(false));
    assert_eq!(field.get(8), Some(true));
    assert_eq!(field.get(9), None);
    assert_eq!(Bitfield::new().len(), 0);
}

#[test]
fn bitfield_push_byte_puts_low_bit_first() {
    let mut field = Bitfield::from_bools(&[true]);
    field.push_byte(0b0000_0110);
    assert_eq!(
        field.to_bools(),
        vec![true, false, true, true, false, false, false, false, false]
    );
    assert_eq!(field.last_byte(), 6);
    assert_eq!(field.prefix(1).to_bools(), vec![true]);
    assert_eq!(field.prefix(0).to_bools(), Vec::<bool>::new());
}

#[test]
fn bitfield_last_byte_reads_across_bytes() {
    let mut bits = vec![true, true, true];
    bits.extend([true, false, true, false, false, false, false, true]);
    let field = Bitfield::from_bools(&bits);
    assert_eq!(field.last_byte(), 0b1000_0101);
}

#[test]
fn bitfield_equality_is_by_bits() {
    let a = Bitfield::from_bools(&[true, false]);
    let b = Bitfield::from_bools(&[true, false]);
    let c = Bitfield::from_bools(&[true, false, false]);
    assert_eq!(a, b);
    assert_ne!(a, c);
    assert_eq!(a.clone(), a);
}

#[test]
fn injected_core_index_comes_back_for_every_length() {
    for n in 0..20usize {
        let bits: Vec<bool> = (0..n).map(|i| i % 3 == 0).collect();
        let backed = BackedCandidate::new(
            candidate(),
            vec![],
            Bitfield::from_bools(&bits),
            Some(CoreIndex(5)),
        );
        let (indices, core) = backed.validator_indices_and_core_index(true);
        assert_eq!(indices.to_bools(), bits);
        assert_eq!(core, Some(CoreIndex(5)));
        let (all, none) = backed.validator_indices_and_core_index(false);
        assert_eq!(all.len(), n + 8);
        assert_eq!(none, None);
    }
}

#[test]
fn injected_core_index_keeps_its_low_byte() {
    let backed = BackedCandidate::new(
        candidate(),
        vec![],
        Bitfield::from_bools(&[false, true, false, true]),
        Some(CoreIndex(256 + 10)),
    );
    let (_, core) = backed.validator_indices_and_core_index(true);
    assert_eq!(core, Some(CoreIndex(10)));
}

#[test]
fn short_bitfield_has_no_core_index() {
    let bits = vec![false, true, false, true];
    let backed = BackedCandidate::new(candidate(), vec![], Bitfield::from_bools(&bits), None);
    let (indices, core) = backed.validator_indices_and_core_index(true);
    assert_eq!(indices.to_bools(), bits);
    assert_eq!(core, None);
    let (indices, core) = backed.validator_indices_and_core_index(false);
    assert_eq!(indices.to_bools(), bits);
    assert_eq!(core, None);
}

#[test]
fn set_validator_indices_replaces_the_bits() {
    let mut backed = BackedCandidate::new(
        candidate(),
        vec![],
        Bitfield::from_bools(&[true, true]),
        Some(CoreIndex(1)),
    );
    backed.set_validator_indices_and_core_index(
        Bitfield::from_bools(&[false, true, true]),
        Some(CoreIndex(200)),
    );
    let (indices, core) = backed.validator_indices_and_core_index(true);
    assert_eq!(indices.to_bools(), vec![false, true, true]);
    assert_eq!(core, Some(CoreIndex(200)));
    backed.set_validator_indices_and_core_index(Bitfield::from_bools(&[true]), None);
    let (indices, core) = backed.validator_indices_and_core_index(true);
    assert_eq!(indices.to_bools(), vec![true]);
    assert_eq!(core, None);
}

#[test]
fn backed_candidate_hands_out_its_parts() {
    let vote = ValidityAttestation::Explicit(ValidatorSignature([7u8; 64]));
    let mut backed =
        BackedCandidate::new(candidate(), vec![vote], Bitfield::from_bools(&[true]), None);
    assert_eq!(backed.candidate(), &candidate());
    assert_eq!(backed.descriptor(), &candidate().descriptor);
    assert_eq!(backed.validity_votes(), &[vote]);
    backed.validity_votes_mut().push(ValidityAttestation::Implicit(ValidatorSignature([8u8; 64])));
    assert_eq!(backed.validity_votes().len(), 2);
    assert_eq!(backed.hash(), candidate().hash());
    assert_eq!(backed.receipt(), candidate().to_plain());
}

use candidate_primitives::commitments::CandidateCommitments;
use candidate_primitives::descriptor::{CandidateDescriptorV2, CandidateDescriptorVersion};
use candidate_primitives::legacy::{
    CandidateDescriptor, CandidateReceipt, CommittedCandidateReceipt,
};
use candidate_primitives::primitives::{
    CandidateHash, CollatorId, CollatorSignature, CoreIndex, HeadData, ParaId, ValidationCode,
    H256,
};
use candidate_primitives::receipt::{
    CandidateReceiptError, CandidateReceiptV2, CommittedCandidateReceiptV2,
};
use candidate_primitives::signal::{ump_separator, ClaimQueueOffset, CoreSelector, UMPSignal};

fn empty_commitments() -> CandidateCommitments {
    CandidateCommitments {
        head_data: HeadData(vec![]),
        upward_messages: vec![],
        new_validation_code: None,
        horizontal_messages: vec![],
        processed_downward_messages: 0,
        hrmp_watermark: 0_u32,
    }
}

fn committed_receipt_v2(para_id: u32, core_index: u32) -> CommittedCandidateReceiptV2 {
    let zeros = H256::zero();
    CommittedCandidateReceiptV2 {
        descriptor: CandidateDescriptorV2::new(
            ParaId::new(para_id),
            zeros,
            CoreIndex(core_index),
            1,
            zeros,
            zeros,
            zeros,
            zeros,
            ValidationCode(vec![1, 2, 3, 4, 5, 6, 7, 8, 9]).hash(),
        ),
        commitments: empty_commitments(),
    }
}

fn dummy_committed_candidate_receipt_v2() -> CommittedCandidateReceiptV2 {
    committed_receipt_v2(0, 123)
}

fn dummy_old_committed_candidate_receipt() -> CommittedCandidateReceipt {
    let zeros = H256::zero();
    CommittedCandidateReceipt {
        descriptor: CandidateDescriptor {
            para_id: ParaId::new(0),
            relay_parent: zeros,
            collator: CollatorId([0u8; 32]),
            persisted_validation_data_hash: zeros,
            pov_hash: zeros,
            erasure_root: zeros,
            signature: CollatorSignature([0u8; 64]),
            para_head: zeros,
            validation_code_hash: ValidationCode(vec![1, 2, 3, 4, 5, 6, 7, 8, 9]).hash(),
        },
        commitments: empty_commitments(),
    }
}

fn dummy_collator_signature() -> CollatorSignature {
    CollatorSignature::from_slice((0..64).collect::<Vec<u8>>().as_slice()).expect("64 bytes; qed")
}

fn dummy_collator_id() -> CollatorId {
    CollatorId::from_slice((0..32).collect::<Vec<u8>>().as_slice()).expect("32 bytes; qed")
}

fn with_ump_commitment(mut ccr: CommittedCandidateReceiptV2) -> CommittedCandidateReceiptV2 {
    // dummy XCM messages
    ccr.commitments.upward_messages.push(vec![0u8; 256]);
    ccr.commitments.upward_messages.push(vec![0xff; 256]);
    // separator
    ccr.commitments.upward_messages.push(ump_separator());
    // CoreIndex commitment
    ccr.commitments
        .upward_messages
        .push(UMPSignal::SelectCore(CoreSelector(0), ClaimQueueOffset(1)).encode());
    ccr
}

#[test]
fn is_binary_compatibile() {
    let old_ccr = dummy_old_committed_candidate_receipt();
    let new_ccr = dummy_committed_candidate_receipt_v2();

    assert_eq!(old_ccr.encode().len(), new_ccr.encode().len());

    let encoded_old = old_ccr.encode();

    // Deserialize from old candidate receipt.
    let new_ccr = CommittedCandidateReceiptV2::decode(encoded_old.as_slice()).unwrap();

    // We get same candidate hash.
    assert_eq!(old_ccr.hash(), new_ccr.hash());
}

#[test]
fn test_ump_commitment() {
    let new_ccr = with_ump_commitment(committed_receipt_v2(1000, 123));

    assert_eq!(new_ccr.check(&vec![CoreIndex(123)]), Ok(()));
}

#[test]
fn test_version2_receipts_decoded_as_v1() {
    let new_ccr = with_ump_commitment(committed_receipt_v2(1000, 123));

    let encoded_ccr = new_ccr.encode();
    let decoded_ccr = CommittedCandidateReceipt::decode(encoded_ccr.as_slice()).unwrap();

    assert_eq!(decoded_ccr.descriptor.relay_parent, new_ccr.descriptor.relay_parent());
    assert_eq!(decoded_ccr.descriptor.para_id, new_ccr.descriptor.para_id());

    assert_eq!(new_ccr.hash(), decoded_ccr.hash());

    // Encode v1 and decode as V2
    let encoded_ccr = new_ccr.encode();
    let v2_ccr = CommittedCandidateReceiptV2::decode(encoded_ccr.as_slice()).unwrap();

    assert_eq!(v2_ccr.descriptor.core_index(), Some(CoreIndex(123)));
    assert_eq!(new_ccr.check(&vec![CoreIndex(123)]), Ok(()));

    assert_eq!(new_ccr.hash(), v2_ccr.hash());
}

#[test]
fn test_core_select_is_mandatory() {
    // Testing edge case when collators provide zeroed signature and collator id.
    let mut old_ccr = dummy_old_committed_candidate_receipt();
    old_ccr.descriptor.para_id = ParaId::new(1000);
    let encoded_ccr: Vec<u8> = old_ccr.encode();

    let new_ccr = CommittedCandidateReceiptV2::decode(encoded_ccr.as_slice()).unwrap();

    // Since collator sig and id are zeroed, it means that the descriptor uses format
    // version 2.
    // We expect the check to fail in such case because there will be no `SelectCore`
    // commitment.
    assert_eq!(new_ccr.check(&vec![CoreIndex(0)]), Err(CandidateReceiptError::NoCoreSelected));

    // Adding collator signature should make it decode as v1.
    old_ccr.descriptor.signature = dummy_collator_signature();
    old_ccr.descriptor.collator = dummy_collator_id();

    let old_ccr_hash = old_ccr.hash();

    let encoded_ccr: Vec<u8> = old_ccr.encode();

    let new_ccr = CommittedCandidateReceiptV2::decode(encoded_ccr.as_slice()).unwrap();

    assert_eq!(new_ccr.descriptor.signature(), Some(old_ccr.descriptor.signature));
    assert_eq!(new_ccr.descriptor.collator(), Some(old_ccr.descriptor.collator));

    assert_eq!(new_ccr.descriptor.core_index(), None);
    assert_eq!(new_ccr.descriptor.para_id(), ParaId::new(1000));

    assert_eq!(old_ccr_hash, new_ccr.hash());
}

#[test]
fn check_accepts_the_selected_core() {
    let ccr = with_ump_commitment(committed_receipt_v2(1000, 7));
    assert_eq!(ccr.check(&[CoreIndex(7)]), Ok(()));
}

#[test]
fn check_refuses_another_core() {
    let ccr = with_ump_commitment(committed_receipt_v2(1000, 8));
    assert_eq!(ccr.check(&[CoreIndex(7)]), Err(CandidateReceiptError::CoreIndexMismatch));
}

#[test]
fn check_exempts_legacy_receipts() {
    let mut old_ccr = dummy_old_committed_candidate_receipt();
    old_ccr.descriptor.signature = dummy_collator_signature();
    old_ccr.descriptor.collator = dummy_collator_id();
    let ccr = CommittedCandidateReceiptV2::decode(&old_ccr.encode()).unwrap();
    assert_eq!(ccr.descriptor.version(), CandidateDescriptorVersion::V1);
    assert_eq!(ccr.commitments.selected_core(), None);
    assert_eq!(ccr.check(&[]), Ok(()));
    assert_eq!(ccr.check(&[CoreIndex(3)]), Ok(()));
}

#[test]
fn check_needs_an_assignment() {
    let ccr = with_ump_commitment(committed_receipt_v2(1000, 7));
    assert_eq!(ccr.check(&[]), Err(CandidateReceiptError::NoAssignment));
}

#[test]
fn check_needs_a_selected_core() {
    let ccr = committed_receipt_v2(1000, 7);
    assert_eq!(ccr.check(&[CoreIndex(7)]), Err(CandidateReceiptError::NoCoreSelected));
}

#[test]
fn check_reduces_the_selector_modulo_the_cores() {
    let mut ccr = committed_receipt_v2(1000, 30);
    ccr.commitments.upward_messages.push(ump_separator());
    ccr.commitments
        .upward_messages
        .push(UMPSignal::SelectCore(CoreSelector(5), ClaimQueueOffset(0)).encode());
    // 5 mod 3 is 2
    assert_eq!(ccr.check(&[CoreIndex(10), CoreIndex(20), CoreIndex(30)]), Ok(()));
    assert_eq!(
        ccr.check(&[CoreIndex(30), CoreIndex(20), CoreIndex(10)]),
        Err(CandidateReceiptError::CoreIndexMismatch)
    );
    // 5 mod 5 is 0
    assert_eq!(
        ccr.check(&[CoreIndex(30), CoreIndex(1), CoreIndex(2), CoreIndex(3), CoreIndex(4)]),
        Ok(())
    );
}

#[test]
fn plain_receipt_has_the_hash_of_the_committed_receipt() {
    let ccr = with_ump_commitment(committed_receipt_v2(1000, 7));
    let plain = ccr.to_plain();
    assert_eq!(plain.descriptor(), &ccr.descriptor);
    assert_eq!(plain.commitments_hash, ccr.commitments.hash());
    assert_eq!(plain.hash(), ccr.hash());
    assert!(ccr.corresponds_to(&plain));
}

#[test]
fn corresponds_to_compares_descriptor_and_commitments() {
    let ccr = with_ump_commitment(committed_receipt_v2(1000, 7));
    let plain = ccr.to_plain();
    let other_hash = CandidateReceiptV2 { commitments_hash: H256([1u8; 32]), ..plain };
    assert!(!ccr.corresponds_to(&other_hash));
    let other_descriptor =
        CandidateReceiptV2 { descriptor: committed_receipt_v2(1000, 8).descriptor, ..plain };
    assert!(!ccr.corresponds_to(&other_descriptor));
}

#[test]
fn receipt_hash_is_blake2_of_descriptor_and_commitments_hash() {
    let ccr = with_ump_commitment(committed_receipt_v2(1000, 7));
    let mut bytes = ccr.descriptor.encode();
    bytes.extend_from_slice(&ccr.commitments.hash().0);
    assert_eq!(ccr.to_plain().encode(), bytes);
    let expected = sp_crypto_hashing::blake2_256(&bytes);
    assert_eq!(ccr.hash(), CandidateHash(H256(expected)));
}

#[test]
fn committed_receipt_round_trips() {
    let ccr = with_ump_commitment(committed_receipt_v2(1000, 7));
    let bytes = ccr.encode();
    assert_eq!(CommittedCandidateReceiptV2::decode(&bytes), Ok(ccr));
}

#[test]
fn legacy_conversion_keeps_bytes_and_hash() {
    let ccr = with_ump_commitment(committed_receipt_v2(1000, 7));
    let bytes = ccr.encode();
    let hash = ccr.hash();
    let plain = ccr.to_plain();
    let legacy = CommittedCandidateReceipt::from(ccr);
    assert_eq!(legacy.encode(), bytes);
    assert_eq!(legacy.hash(), hash);
    assert_eq!(&legacy.descriptor.collator.0[..], &bytes[36..68]);
    assert_eq!(legacy.descriptor.signature, CollatorSignature([0u8; 64]));
    let legacy_plain = CandidateReceipt::from(plain);
    assert_eq!(legacy_plain, legacy.to_plain());
    assert_eq!(legacy_plain.hash(), hash);
    assert_eq!(legacy_plain.encode(), plain.encode());
}

#[test]
fn plain_receipt_round_trips_in_both_layouts() {
    let plain = with_ump_commitment(committed_receipt_v2(1000, 7)).to_plain();
    let bytes = plain.encode();
    assert_eq!(bytes.len(), 324);
    assert_eq!(CandidateReceiptV2::decode(&bytes), Ok(plain));
    let legacy = CandidateReceipt::decode(&bytes).unwrap();
    assert_eq!(legacy, CandidateReceipt::from(plain));
    assert_eq!(legacy.encode(), bytes);
    assert_eq!(legacy.hash(), plain.hash());
    assert!(CandidateReceiptV2::decode(&bytes[..323]).is_err());
    assert!(CandidateReceipt::decode(&bytes[..323]).is_err());
    let mut longer = bytes.clone();
    longer.push(0);
    assert!(CandidateReceiptV2::decode(&longer).is_err());
    assert!(CandidateReceipt::decode(&longer).is_err());
}

#[test]
fn committed_receipt_decode_refuses_what_is_cut_short_or_too_long() {
    let bytes = with_ump_commitment(committed_receipt_v2(1000, 7)).encode();
    assert!(CommittedCandidateReceiptV2::decode(&bytes[..100]).is_err());
    assert!(CommittedCandidateReceiptV2::decode(&bytes[..bytes.len() - 1]).is_err());
    assert!(CommittedCandidateReceipt::decode(&bytes[..bytes.len() - 1]).is_err());
    let mut longer = bytes.clone();
    longer.push(0);
    assert!(CommittedCandidateReceiptV2::decode(&longer).is_err());
    assert!(CommittedCandidateReceipt::decode(&longer).is_err());
}

#[test]
fn legacy_descriptor_round_trips() {
    let bytes: Vec<u8> = (0..292u32).map(|i| (i * 3 + 1) as u8).collect();
    let legacy = CandidateDescriptor::decode(&bytes).unwrap();
    assert_eq!(legacy.encode(), bytes);
    assert_eq!(&legacy.collator.0[..], &bytes[4 + 32..4 + 64]);
    assert_eq!(&legacy.signature.0[..], &bytes[164..228]);
    let current = CandidateDescriptorV2::decode(&bytes).unwrap();
    assert_eq!(CandidateDescriptor::from(current), legacy);
    assert!(CandidateDescriptor::decode(&bytes[1..]).is_err());
}

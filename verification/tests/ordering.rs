use candidate_primitives::commitments::CandidateCommitments;
use candidate_primitives::descriptor::CandidateDescriptorV2;
use candidate_primitives::ordering::compare_bytes;
use candidate_primitives::primitives::{CoreIndex, HeadData, ParaId, ValidationCodeHash, H256};
use candidate_primitives::receipt::CommittedCandidateReceiptV2;
use std::cmp::Ordering;

fn receipt(para: u32, head: &[u8], watermark: u32) -> CommittedCandidateReceiptV2 {
    let h = H256::zero();
    CommittedCandidateReceiptV2 {
        descriptor: CandidateDescriptorV2::new(
            ParaId::new(para),
            h,
            CoreIndex(0),
            0,
            h,
            h,
            h,
            h,
            ValidationCodeHash(h),
        ),
        commitments: CandidateCommitments {
            upward_messages: vec![],
            horizontal_messages: vec![],
            new_validation_code: None,
            head_data: HeadData(head.to_vec()),
            processed_downward_messages: 0,
            hrmp_watermark: watermark,
        },
    }
}

#[test]
fn bytes_compare_as_slices_do() {
    let samples: Vec<Vec<u8>> = vec![
        vec![],
        vec![0],
        vec![0, 0],
        vec![0, 1],
        vec![1],
        vec![1, 0],
        vec![1, 255],
        vec![2],
        vec![255],
        vec![255, 0, 3],
    ];
    for a in &samples {
        for b in &samples {
            let expected = match a.cmp(b) {
                Ordering::Less => -1,
                Ordering::Equal => 0,
                Ordering::Greater => 1,
            };
            assert_eq!(compare_bytes(a, b), expected);
        }
    }
}

#[test]
fn receipts_are_ordered_by_para_then_head_data() {
    let a = receipt(1, &[9, 9], 0);
    let b = receipt(2, &[0], 0);
    let c = receipt(2, &[0, 1], 0);
    let d = receipt(2, &[1], 0);
    assert_eq!(a.cmp(&b), Ordering::Less);
    assert_eq!(b.cmp(&a), Ordering::Greater);
    assert_eq!(b.cmp(&c), Ordering::Less);
    assert_eq!(c.cmp(&d), Ordering::Less);
    assert_eq!(d.cmp(&b), Ordering::Greater);
    assert_eq!(a.partial_cmp(&b), Some(Ordering::Less));
    assert!(a < b);
    assert!(d > c);
}

#[test]
fn order_looks_at_nothing_but_para_and_head_data() {
    let a = receipt(2, &[5], 1);
    let b = receipt(2, &[5], 2);
    assert_ne!(a, b);
    assert_eq!(a.cmp(&b), Ordering::Equal);
    assert_eq!(a.partial_cmp(&b), Some(Ordering::Equal));
}

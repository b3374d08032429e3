use candidate_primitives::commitments::CandidateCommitments;
use candidate_primitives::descriptor::DecodeError;
use candidate_primitives::primitives::{
    HeadData, OutboundHrmpMessage, ParaId, ValidationCode, H256,
};
use candidate_primitives::signal::{
    ump_separator, ClaimQueueOffset, CoreSelector, UMPSignal, DEFAULT_CLAIM_QUEUE_OFFSET,
};
use parity_scale_codec::Encode;

fn with_messages(upward_messages: Vec<Vec<u8>>) -> CandidateCommitments {
    CandidateCommitments {
        upward_messages,
        horizontal_messages: vec![],
        new_validation_code: None,
        head_data: HeadData(vec![]),
        processed_downward_messages: 0,
        hrmp_watermark: 0,
    }
}

fn full() -> CandidateCommitments {
    CandidateCommitments {
        upward_messages: vec![vec![1, 2, 3], vec![], vec![0, 9, 1], vec![7u8; 100]],
        horizontal_messages: vec![
            OutboundHrmpMessage { recipient: ParaId::new(2000), data: vec![5, 6] },
            OutboundHrmpMessage { recipient: ParaId::new(7), data: vec![] },
        ],
        new_validation_code: Some(ValidationCode(vec![0xaa; 70])),
        head_data: HeadData(vec![4, 4, 4, 4]),
        processed_downward_messages: 17,
        hrmp_watermark: 0x01020304,
    }
}

fn signal(selector: u8, offset: u8) -> Vec<u8> {
    UMPSignal::SelectCore(CoreSelector(selector), ClaimQueueOffset(offset)).encode()
}

#[test]
fn signal_has_three_bytes() {
    assert_eq!(signal(9, 1), vec![0, 9, 1]);
    assert_eq!(
        UMPSignal::decode(&[0, 9, 1]),
        Ok(UMPSignal::SelectCore(CoreSelector(9), ClaimQueueOffset(1)))
    );
    assert_eq!(UMPSignal::decode(&[0, 9, 1, 77]), Err(DecodeError));
    assert_eq!(UMPSignal::decode(&[]), Err(DecodeError));
    assert_eq!(UMPSignal::decode(&[0, 9]), Err(DecodeError));
    assert_eq!(UMPSignal::decode(&[1, 9, 1]), Err(DecodeError));
    assert_eq!(ump_separator(), Vec::<u8>::new());
    assert_eq!(ClaimQueueOffset::default_offset(), ClaimQueueOffset(1));
    assert_eq!(DEFAULT_CLAIM_QUEUE_OFFSET, 1);
}

#[test]
fn selected_core_is_read_behind_the_separator() {
    let commitments =
        with_messages(vec![vec![0u8; 256], vec![0xff; 256], ump_separator(), signal(3, 1)]);
    assert_eq!(commitments.selected_core(), Some((CoreSelector(3), ClaimQueueOffset(1))));
}

#[test]
fn selected_core_needs_two_messages() {
    assert_eq!(with_messages(vec![]).selected_core(), None);
    assert_eq!(with_messages(vec![signal(3, 1)]).selected_core(), None);
    assert_eq!(with_messages(vec![ump_separator()]).selected_core(), None);
    assert_eq!(
        with_messages(vec![ump_separator(), signal(3, 1)]).selected_core(),
        Some((CoreSelector(3), ClaimQueueOffset(1)))
    );
}

#[test]
fn selected_core_needs_a_separator() {
    let commitments = with_messages(vec![vec![1], vec![2], signal(3, 1)]);
    assert_eq!(commitments.selected_core(), None);
}

#[test]
fn selected_core_needs_a_signal_behind_the_separator() {
    let commitments = with_messages(vec![vec![1], vec![2], ump_separator()]);
    assert_eq!(commitments.selected_core(), None);
    let commitments = with_messages(vec![vec![1], ump_separator(), vec![1, 3, 1]]);
    assert_eq!(commitments.selected_core(), None);
    let commitments = with_messages(vec![vec![1], ump_separator(), vec![0, 3]]);
    assert_eq!(commitments.selected_core(), None);
}

#[test]
fn selected_core_refuses_a_signal_with_surplus_bytes() {
    let commitments = with_messages(vec![ump_separator(), vec![0, 3, 0, 9]]);
    assert_eq!(commitments.selected_core(), None);
    let commitments = with_messages(vec![vec![1], ump_separator(), vec![0, 3, 0, 0, 0]]);
    assert_eq!(commitments.selected_core(), None);
    let commitments = with_messages(vec![ump_separator(), vec![0, 3, 0]]);
    assert_eq!(commitments.selected_core(), Some((CoreSelector(3), ClaimQueueOffset(0))));
}

#[test]
fn selected_core_goes_by_the_last_separator() {
    let commitments = with_messages(vec![
        ump_separator(),
        signal(1, 1),
        vec![5],
        ump_separator(),
        signal(2, 0),
        signal(9, 9),
    ]);
    assert_eq!(commitments.selected_core(), Some((CoreSelector(2), ClaimQueueOffset(0))));
    let commitments = with_messages(vec![ump_separator(), signal(1, 1), ump_separator()]);
    assert_eq!(commitments.selected_core(), None);
}

#[test]
fn commitments_encoding_matches_the_codec_crate() {
    let commitments = full();
    let expected = (
        commitments.upward_messages.clone(),
        vec![(2000u32, vec![5u8, 6]), (7u32, vec![])],
        Some(vec![0xaau8; 70]),
        vec![4u8, 4, 4, 4],
        17u32,
        0x01020304u32,
    )
        .encode();
    assert_eq!(commitments.encode(), expected);
    let empty = with_messages(vec![]);
    let expected =
        (Vec::<Vec<u8>>::new(), Vec::<(u32, Vec<u8>)>::new(), None::<Vec<u8>>, Vec::<u8>::new(), 0u32, 0u32)
            .encode();
    assert_eq!(empty.encode(), expected);
    assert_eq!(empty.encode(), vec![0, 0, 0, 0, 0, 0, 0, 0, 0, 0, 0, 0]);
}

#[test]
fn encoding_of_many_messages_matches_the_codec_crate() {
    let messages: Vec<Vec<u8>> = (0..70u32).map(|i| vec![i as u8; (i * 5) as usize]).collect();
    let commitments = with_messages(messages.clone());
    let expected =
        (messages, Vec::<(u32, Vec<u8>)>::new(), None::<Vec<u8>>, Vec::<u8>::new(), 0u32, 0u32)
            .encode();
    assert_eq!(commitments.encode(), expected);
    assert_eq!(CandidateCommitments::decode(&expected), Ok(commitments));
}

#[test]
fn commitments_round_trip() {
    let commitments = full();
    let bytes = commitments.encode();
    assert_eq!(CandidateCommitments::decode(&bytes), Ok(commitments));
}

#[test]
fn decode_refuses_what_is_cut_short_or_too_long() {
    let bytes = full().encode();
    for len in 0..bytes.len() {
        assert_eq!(CandidateCommitments::decode(&bytes[..len]), Err(DecodeError));
    }
    let mut longer = bytes.clone();
    longer.push(0);
    assert_eq!(CandidateCommitments::decode(&longer), Err(DecodeError));
}

#[test]
fn decode_refuses_an_unknown_option_tag() {
    let mut bytes = with_messages(vec![]).encode();
    assert_eq!(bytes[2], 0);
    bytes[2] = 2;
    assert_eq!(CandidateCommitments::decode(&bytes), Err(DecodeError));
}

#[test]
fn decode_refuses_a_count_in_a_longer_form() {
    // no upward message, the count written in two bytes
    let mut bytes = vec![1, 0];
    bytes.extend_from_slice(&[0, 0, 0, 0, 0, 0, 0, 0, 0, 0, 0]);
    assert_eq!(CandidateCommitments::decode(&bytes), Err(DecodeError));
}

#[test]
fn hash_is_blake2_of_the_encoding() {
    let commitments = full();
    let expected = sp_crypto_hashing::blake2_256(&commitments.encode());
    assert_eq!(commitments.hash(), H256(expected));
    assert_ne!(commitments.hash(), with_messages(vec![]).hash());
}

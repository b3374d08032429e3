use candidate_primitives::descriptor::{
    CandidateDescriptorV2, CandidateDescriptorVersion, DecodeError, DESCRIPTOR_SIZE,
};
use candidate_primitives::primitives::{CoreIndex, ParaId, ValidationCodeHash, H256};
use parity_scale_codec::Encode;

fn hash_of(byte: u8) -> H256 {
    H256([byte; 32])
}

fn sample() -> CandidateDescriptorV2 {
    CandidateDescriptorV2::new(
        ParaId::new(1000),
        hash_of(1),
        CoreIndex(123),
        7,
        hash_of(2),
        hash_of(3),
        hash_of(4),
        hash_of(5),
        ValidationCodeHash(hash_of(6)),
    )
}

#[test]
fn new_descriptor_is_version_two() {
    let descriptor = sample();
    assert_eq!(descriptor.version(), CandidateDescriptorVersion::V2);
    assert_eq!(descriptor.core_index(), Some(CoreIndex(123)));
    assert_eq!(descriptor.session_index(), Some(7));
    assert_eq!(descriptor.collator(), None);
    assert_eq!(descriptor.signature(), None);
}

#[test]
fn getters_return_the_fields() {
    let descriptor = sample();
    assert_eq!(descriptor.para_id(), ParaId::new(1000));
    assert_eq!(descriptor.relay_parent(), hash_of(1));
    assert_eq!(descriptor.persisted_validation_data_hash(), hash_of(2));
    assert_eq!(descriptor.pov_hash(), hash_of(3));
    assert_eq!(descriptor.erasure_root(), hash_of(4));
    assert_eq!(descriptor.para_head(), hash_of(5));
    assert_eq!(descriptor.validation_code_hash(), ValidationCodeHash(hash_of(6)));
}

#[test]
fn set_pov_hash_changes_only_that_hash() {
    let mut descriptor = sample();
    descriptor.set_pov_hash(hash_of(9));
    assert_eq!(descriptor.pov_hash(), hash_of(9));
    assert_eq!(descriptor.erasure_root(), hash_of(4));
    assert_eq!(descriptor.version(), CandidateDescriptorVersion::V2);
}

#[test]
fn new_descriptor_keeps_low_sixteen_bits_of_core_index() {
    let h = hash_of(0);
    let descriptor = CandidateDescriptorV2::new(
        ParaId::new(1),
        h,
        CoreIndex(65536 + 5),
        0,
        h,
        h,
        h,
        h,
        ValidationCodeHash(h),
    );
    assert_eq!(descriptor.core_index(), Some(CoreIndex(5)));
}

#[test]
fn encoding_has_the_fixed_layout() {
    let bytes = sample().encode();
    assert_eq!(bytes.len(), DESCRIPTOR_SIZE);
    assert_eq!(bytes.len(), 292);
    assert_eq!(&bytes[0..4], &[0xe8, 0x03, 0x00, 0x00]);
    assert_eq!(&bytes[4..36], &[1u8; 32]);
    assert_eq!(bytes[36], 0);
    assert_eq!(&bytes[37..39], &[123, 0]);
    assert_eq!(&bytes[39..43], &[7, 0, 0, 0]);
    assert_eq!(&bytes[43..68], &[0u8; 25]);
    assert_eq!(&bytes[68..100], &[2u8; 32]);
    assert_eq!(&bytes[100..132], &[3u8; 32]);
    assert_eq!(&bytes[132..164], &[4u8; 32]);
    assert_eq!(&bytes[164..228], &[0u8; 64]);
    assert_eq!(&bytes[228..260], &[5u8; 32]);
    assert_eq!(&bytes[260..292], &[6u8; 32]);
}

#[test]
fn decode_refuses_other_lengths() {
    assert_eq!(CandidateDescriptorV2::decode(&[]), Err(DecodeError));
    assert_eq!(CandidateDescriptorV2::decode(&[0u8; 291]), Err(DecodeError));
    assert_eq!(CandidateDescriptorV2::decode(&[0u8; 293]), Err(DecodeError));
    assert!(CandidateDescriptorV2::decode(&[0u8; 292]).is_ok());
}

#[test]
fn decode_then_encode_gives_the_bytes_back() {
    let bytes: Vec<u8> = (0..292u32).map(|i| (i * 7 + 3) as u8).collect();
    let descriptor = CandidateDescriptorV2::decode(&bytes).unwrap();
    assert_eq!(descriptor.encode(), bytes);
}

#[test]
fn encode_then_decode_gives_the_descriptor_back() {
    let descriptor = sample();
    let decoded = CandidateDescriptorV2::decode(&descriptor.encode()).unwrap();
    assert_eq!(decoded, descriptor);
}

#[test]
fn legacy_bytes_give_collator_and_signature() {
    let bytes: Vec<u8> = (0..292u32).map(|i| i as u8).collect();
    let descriptor = CandidateDescriptorV2::decode(&bytes).unwrap();
    assert_eq!(descriptor.version(), CandidateDescriptorVersion::V1);
    assert_eq!(descriptor.core_index(), None);
    assert_eq!(descriptor.session_index(), None);
    let collator = descriptor.collator().unwrap();
    assert_eq!(&collator.0[..], &bytes[36..68]);
    let signature = descriptor.signature().unwrap();
    assert_eq!(&signature.0[..], &bytes[164..228]);
}

#[test]
fn one_reserved_byte_makes_a_descriptor_legacy() {
    let zeroed = sample().encode();
    for at in (43..68).chain(164..228) {
        let mut bytes = zeroed.clone();
        bytes[at] = 1;
        let descriptor = CandidateDescriptorV2::decode(&bytes).unwrap();
        assert_eq!(descriptor.version(), CandidateDescriptorVersion::V1);
    }
    let mut bytes = zeroed.clone();
    bytes[36] = 1;
    let descriptor = CandidateDescriptorV2::decode(&bytes).unwrap();
    assert_eq!(descriptor.version(), CandidateDescriptorVersion::V1);
}

#[test]
fn zeroed_legacy_bytes_read_as_version_two() {
    let descriptor = CandidateDescriptorV2::decode(&[0u8; 292]).unwrap();
    assert_eq!(descriptor.version(), CandidateDescriptorVersion::V2);
    assert_eq!(descriptor.core_index(), Some(CoreIndex(0)));
}

#[test]
fn descriptor_encoding_matches_the_codec_crate() {
    let expected = (
        1000u32,
        [1u8; 32],
        0u8,
        123u16,
        7u32,
        [0u8; 25],
        [2u8; 32],
        [3u8; 32],
        [4u8; 32],
        [0u8; 64],
        [5u8; 32],
        [6u8; 32],
    )
        .encode();
    assert_eq!(sample().encode(), expected);
}

use candidate_primitives::hashing::hash_bytes;
use candidate_primitives::primitives::{HeadData, ValidationCode, ValidationCodeHash, H256};

fn hex(bytes: &[u8]) -> String {
    bytes.iter().map(|b| format!("{:02x}", b)).collect()
}

#[test]
fn hash_of_nothing_is_the_known_digest() {
    assert_eq!(
        hex(&hash_bytes(&[]).0),
        "0e5751c026e543b2e8ab2eb06099daa1d1e5df47778f7787faab45cdf12fe3a8"
    );
}

#[test]
fn hash_of_abc_is_the_known_digest() {
    assert_eq!(
        hex(&hash_bytes(b"abc").0),
        "bddd813c634239723171ef3fee98579b94964e3bb1cb3e427262c8c068d52319"
    );
}

#[test]
fn hash_is_not_its_input() {
    let input = [7u8; 32];
    assert_ne!(hash_bytes(&input), H256(input));
    assert_ne!(hash_bytes(&[1]), hash_bytes(&[2]));
}

#[test]
fn code_and_head_data_are_hashed_as_they_are() {
    let bytes = vec![1u8, 2, 3, 4, 5, 6, 7, 8, 9];
    assert_eq!(ValidationCode(bytes.clone()).hash(), ValidationCodeHash(hash_bytes(&bytes)));
    assert_eq!(HeadData(bytes.clone()).hash(), hash_bytes(&bytes));
    assert_eq!(H256::zero(), H256([0u8; 32]));
}

use candidate_primitives::wire::{
    all_zero, get_array, get_u16, get_u32, put_bytes, put_compact, put_length_prefixed, put_u16,
    put_u32, read_compact, read_length_prefixed, same_bytes,
};
use parity_scale_codec::{Compact, Encode};

fn compact_bytes(n: u32) -> Vec<u8> {
    let mut out = Vec::new();
    put_compact(&mut out, n);
    out
}

#[test]
fn integers_are_written_little_endian() {
    let mut out = vec![9u8];
    put_u16(&mut out, 0x1234);
    put_u32(&mut out, 0xdeadbeef);
    put_bytes(&mut out, &[1, 2, 3]);
    assert_eq!(out, vec![9, 0x34, 0x12, 0xef, 0xbe, 0xad, 0xde, 1, 2, 3]);
    assert_eq!(get_u16(&out, 1), 0x1234);
    assert_eq!(get_u32(&out, 3), 0xdeadbeef);
    assert_eq!(get_array::<3>(&out, 7), [1, 2, 3]);
}

#[test]
fn integers_match_the_codec_crate() {
    for x in [0u32, 1, 255, 256, 65535, 65536, 0x01020304, u32::MAX] {
        let mut out = Vec::new();
        put_u32(&mut out, x);
        assert_eq!(out, x.encode());
        assert_eq!(get_u32(&out, 0), x);
    }
    for x in [0u16, 1, 255, 256, 0x0102, u16::MAX] {
        let mut out = Vec::new();
        put_u16(&mut out, x);
        assert_eq!(out, x.encode());
        assert_eq!(get_u16(&out, 0), x);
    }
}

#[test]
fn compact_has_the_four_forms() {
    assert_eq!(compact_bytes(0), vec![0]);
    assert_eq!(compact_bytes(1), vec![4]);
    assert_eq!(compact_bytes(63), vec![252]);
    assert_eq!(compact_bytes(64), vec![1, 1]);
    assert_eq!(compact_bytes(16383), vec![253, 255]);
    assert_eq!(compact_bytes(16384), vec![2, 0, 1, 0]);
    assert_eq!(compact_bytes(1073741823), vec![254, 255, 255, 255]);
    assert_eq!(compact_bytes(1073741824), vec![3, 0, 0, 0, 64]);
    assert_eq!(compact_bytes(u32::MAX), vec![3, 255, 255, 255, 255]);
}

#[test]
fn compact_matches_the_codec_crate() {
    for n in [
        0u32, 1, 2, 62, 63, 64, 65, 255, 256, 1000, 16383, 16384, 16385, 65535, 65536, 1 << 20,
        1073741823, 1073741824, 1073741825, u32::MAX - 1, u32::MAX,
    ] {
        let bytes = compact_bytes(n);
        assert_eq!(bytes, Compact(n).encode());
        assert_eq!(read_compact(&bytes, 0), Some((n, bytes.len())));
        let mut longer = vec![7u8, 7];
        longer.extend(&bytes);
        longer.push(9);
        assert_eq!(read_compact(&longer, 2), Some((n, bytes.len())));
    }
}

#[test]
fn compact_refuses_what_is_cut_short() {
    assert_eq!(read_compact(&[], 0), None);
    assert_eq!(read_compact(&[1], 0), None);
    assert_eq!(read_compact(&[2, 0, 1], 0), None);
    assert_eq!(read_compact(&[3, 0, 0, 0], 0), None);
    assert_eq!(read_compact(&[4], 1), None);
}

#[test]
fn compact_refuses_longer_forms_than_needed() {
    // 63 in two bytes
    assert_eq!(read_compact(&[253, 0], 0), None);
    // 16383 in four bytes
    assert_eq!(read_compact(&[254, 255, 0, 0], 0), None);
    // 1073741823 in five bytes
    assert_eq!(read_compact(&[3, 255, 255, 255, 63], 0), None);
    // more than four bytes behind the first
    assert_eq!(read_compact(&[7, 0, 0, 0, 64, 0], 0), None);
}

#[test]
fn bytes_behind_their_length_match_the_codec_crate() {
    for len in [0usize, 1, 63, 64, 300, 16383, 16384, 70000] {
        let data: Vec<u8> = (0..len).map(|i| (i % 251) as u8).collect();
        let mut out = Vec::new();
        put_length_prefixed(&mut out, &data);
        assert_eq!(out, data.encode());
        assert_eq!(read_length_prefixed(&out, 0), Some((data.clone(), out.len())));
        let cut = &out[..out.len() - 1];
        if len > 0 {
            assert_eq!(read_length_prefixed(cut, 0), None);
        }
    }
}

#[test]
fn arrays_compare_by_their_bytes() {
    assert!(same_bytes(&[1u8, 2, 3], &[1, 2, 3]));
    assert!(!same_bytes(&[1u8, 2, 3], &[1, 2, 4]));
    assert!(all_zero(&[0u8; 25]));
    let mut a = [0u8; 25];
    a[24] = 1;
    assert!(!all_zero(&a));
}

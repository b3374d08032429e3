//! The byte-level building blocks of the wire format: fixed-width little-endian
//! integers, fixed-size byte arrays and compact length prefixes.

use vstd::prelude::*;

verus! {

/// The two bytes of `x`, least significant first.
pub open spec fn u16_le(x: u16) -> Seq<u8> {
    seq![(x % 256) as u8, (x / 256) as u8]
}

/// The four bytes of `x`, least significant first.
pub open spec fn u32_le(x: u32) -> Seq<u8> {
    seq![
        (x % 256) as u8,
        (x / 256 % 256) as u8,
        (x / 65536 % 256) as u8,
        (x / 16777216) as u8,
    ]
}

/// The number whose little-endian bytes are the first two of `s`.
pub open spec fn u16_from_le(s: Seq<u8>) -> u16 {
    (s[0] + 256 * s[1]) as u16
}

/// The number whose little-endian bytes are the first four of `s`.
pub open spec fn u32_from_le(s: Seq<u8>) -> u32 {
    (s[0] + 256 * s[1] + 65536 * s[2] + 16777216 * s[3]) as u32
}

/// `n` zero bytes.
pub open spec fn zeros(n: nat) -> Seq<u8> {
    Seq::new(n, |i: int| 0u8)
}

/// A number below 256 under a multiple of 256 comes apart again by `%` and `/`.
pub proof fn lemma_split_256(low: int, high: int)
    requires
        0 <= low < 256,
    ensures
        (low + 256 * high) % 256 == low,
        (low + 256 * high) / 256 == high,
{
    vstd::arithmetic::div_mod::lemma_fundamental_div_mod_converse(
        low + 256 * high,
        256,
        high,
        low,
    );
}

/// Reading back what `u16_le` wrote gives the number again.
pub proof fn lemma_u16_le_round_trip(x: u16)
    ensures
        u16_le(x).len() == 2,
        u16_from_le(u16_le(x)) == x,
{
    assert(x == (x % 256) + 256 * (x / 256) && x % 256 < 256 && x / 256 < 256) by (bit_vector);
}

/// Writing what `u16_from_le` read gives the two bytes again.
pub proof fn lemma_u16_from_le_round_trip(s: Seq<u8>)
    requires
        s.len() == 2,
    ensures
        u16_le(u16_from_le(s)) == s,
{
    lemma_split_256(s[0] as int, s[1] as int);
    assert(u16_le(u16_from_le(s)) =~= s);
}

/// Reading back what `u32_le` wrote gives the number again.
pub proof fn lemma_u32_le_round_trip(x: u32)
    ensures
        u32_le(x).len() == 4,
        u32_from_le(u32_le(x)) == x,
{
    assert(x == (x % 256) + 256 * (x / 256 % 256) + 65536 * (x / 65536 % 256) + 16777216 * (x
        / 16777216)) by (bit_vector);
    assert(x % 256 < 256 && x / 256 % 256 < 256 && x / 65536 % 256 < 256 && x / 16777216 < 256)
        by (bit_vector);
}

/// Writing what `u32_from_le` read gives the four bytes again.
pub proof fn lemma_u32_from_le_round_trip(s: Seq<u8>)
    requires
        s.len() == 4,
    ensures
        u32_le(u32_from_le(s)) == s,
{
    let x = u32_from_le(s);
    lemma_split_256(s[0] as int, s[1] + 256 * s[2] + 65536 * s[3]);
    lemma_split_256(s[1] as int, s[2] + 256 * s[3]);
    lemma_split_256(s[2] as int, s[3] as int);
    assert(x / 256 == s[1] + 256 * s[2] + 65536 * s[3]);
    assert(x / 65536 == x / 256 / 256 && x / 16777216 == x / 256 / 256 / 256) by (bit_vector);
    assert(x / 256 / 256 == s[2] + 256 * s[3]);
    assert(x / 256 / 256 / 256 == s[3]);
    assert(u32_le(x) =~= s);
}

/// Appends the little-endian bytes of `x`.
pub fn put_u16(out: &mut Vec<u8>, x: u16)
    ensures
        final(out)@ == old(out)@ + u16_le(x),
{
    out.push((x % 256) as u8);
    out.push((x / 256) as u8);
    assert(out@ =~= old(out)@ + u16_le(x));
}

/// Appends the little-endian bytes of `x`.
pub fn put_u32(out: &mut Vec<u8>, x: u32)
    ensures
        final(out)@ == old(out)@ + u32_le(x),
{
    out.push((x % 256) as u8);
    out.push((x / 256 % 256) as u8);
    out.push((x / 65536 % 256) as u8);
    out.push((x / 16777216) as u8);
    assert(out@ =~= old(out)@ + u32_le(x));
}

/// The compact form of a length: one byte below 2^6, two bytes below 2^14, four
/// bytes below 2^30 and five bytes from there on. The two low bits of the first byte
/// tell which.
pub open spec fn compact(n: u32) -> Seq<u8> {
    if n < 64 {
        seq![(n * 4) as u8]
    } else if n < 16384 {
        u16_le((n * 4 + 1) as u16)
    } else if n < 1073741824 {
        u32_le((n * 4 + 2) as u32)
    } else {
        seq![3u8] + u32_le(n)
    }
}

/// A byte string behind its compact length.
pub open spec fn length_prefixed(bytes: Seq<u8>) -> Seq<u8> {
    compact(bytes.len() as u32) + bytes
}

/// Appends the compact form of `n`.
pub fn put_compact(out: &mut Vec<u8>, n: u32)
    ensures
        final(out)@ == old(out)@ + compact(n),
{
    if n < 64 {
        out.push((n * 4) as u8);
        assert(out@ =~= old(out)@ + compact(n));
    } else if n < 16384 {
        put_u16(out, (n * 4 + 1) as u16);
    } else if n < 1073741824 {
        put_u32(out, n * 4 + 2);
    } else {
        out.push(3u8);
        put_u32(out, n);
        assert(out@ =~= old(out)@ + compact(n));
    }
}

/// Appends `src` behind its compact length.
pub fn put_length_prefixed(out: &mut Vec<u8>, src: &[u8])
    requires
        src@.len() <= u32::MAX,
    ensures
        final(out)@ == old(out)@ + length_prefixed(src@),
{
    put_compact(out, src.len() as u32);
    put_bytes(out, src);
    assert(out@ =~= old(out)@ + length_prefixed(src@));
}

/// The length at the front of `s` and the number of bytes it takes. There is one
/// only where `s` starts with the compact form of a length: a longer form than a
/// length needs is none.
pub open spec fn parse_compact(s: Seq<u8>) -> Option<(u32, int)> {
    if s.len() == 0 {
        None
    } else if s[0] % 4 == 0 {
        Some(((s[0] / 4) as u32, 1))
    } else if s[0] % 4 == 1 {
        if s.len() < 2 {
            None
        } else {
            let x = u16_from_le(s.subrange(0, 2)) / 4;
            if x > 63 {
                Some((x as u32, 2))
            } else {
                None
            }
        }
    } else if s[0] % 4 == 2 {
        if s.len() < 4 {
            None
        } else {
            let x = u32_from_le(s.subrange(0, 4)) / 4;
            if x > 16383 {
                Some((x as u32, 4))
            } else {
                None
            }
        }
    } else {
        if s[0] != 3 || s.len() < 5 {
            None
        } else {
            let x = u32_from_le(s.subrange(1, 5));
            if x > 1073741823 {
                Some((x, 5))
            } else {
                None
            }
        }
    }
}

/// The bytes behind a compact length at the front of `s`, and the number of
/// bytes that the length and they take together.
#[verifier::opaque]
pub open spec fn parse_length_prefixed(s: Seq<u8>) -> Option<(Seq<u8>, int)> {
    match parse_compact(s) {
        Some((n, k)) => {
            if k + n <= s.len() {
                Some((s.subrange(k, k + n), k + n))
            } else {
                None
            }
        },
        None => None,
    }
}

/// A compact length is read back from its own bytes, whatever follows them.
pub proof fn lemma_parse_compact_written(n: u32, rest: Seq<u8>)
    ensures
        parse_compact(compact(n) + rest) == Some((n, compact(n).len() as int)),
{
    let s = compact(n) + rest;
    if n < 64 {
        assert(s[0] == (n * 4) as u8);
    } else if n < 16384 {
        let x = (n * 4 + 1) as u16;
        lemma_u16_le_round_trip(x);
        assert(s.subrange(0, 2) =~= u16_le(x));
        assert(s[0] == (x % 256) as u8);
        assert(x == n * 4 + 1);
        assert(x % 256 % 4 == 1 && x / 4 == n);
    } else if n < 1073741824 {
        let x = (n * 4 + 2) as u32;
        lemma_u32_le_round_trip(x);
        assert(s.subrange(0, 4) =~= u32_le(x));
        assert(s[0] == (x % 256) as u8);
        assert(x == n * 4 + 2);
        assert(x % 256 % 4 == 2 && x / 4 == n);
    } else {
        lemma_u32_le_round_trip(n);
        assert(s[0] == 3);
        assert(s.subrange(1, 5) =~= u32_le(n));
    }
}

/// What is read as a compact length stands at the front in its compact form.
pub proof fn lemma_parse_compact_canonical(s: Seq<u8>)
    requires
        parse_compact(s) is Some,
    ensures
        ({
            let (n, k) = parse_compact(s)->0;
            &&& 1 <= k <= 5
            &&& k <= s.len()
            &&& k == compact(n).len()
            &&& s.subrange(0, k) == compact(n)
        }),
{
    let (n, k) = parse_compact(s)->0;
    let b0 = s[0];
    if b0 % 4 == 0 {
        assert(b0 / 4 < 64 && (b0 / 4) * 4 == b0);
        assert(s.subrange(0, 1) =~= compact(n));
    } else if b0 % 4 == 1 {
        let part = s.subrange(0, 2);
        let x = u16_from_le(part);
        lemma_u16_from_le_round_trip(part);
        let b1 = s[1];
        assert(x == b0 + 256 * b1);
        assert(x % 4 == 1 && (x / 4) * 4 + 1 == x && x / 4 < 16384);
        assert(s.subrange(0, 2) =~= compact(n));
    } else if b0 % 4 == 2 {
        let part = s.subrange(0, 4);
        let x = u32_from_le(part);
        lemma_u32_from_le_round_trip(part);
        let b1 = s[1];
        let b2 = s[2];
        let b3 = s[3];
        assert(x == b0 + 256 * b1 + 65536 * b2 + 16777216 * b3);
        assert(x % 4 == 2 && (x / 4) * 4 + 2 == x && x / 4 < 1073741824);
        assert(s.subrange(0, 4) =~= compact(n));
    } else {
        let part = s.subrange(1, 5);
        lemma_u32_from_le_round_trip(part);
        assert(s.subrange(0, 5) =~= seq![3u8] + part);
    }
}

/// Bytes behind their length are read back, whatever follows them.
pub proof fn lemma_parse_length_prefixed_written(bytes: Seq<u8>, rest: Seq<u8>)
    requires
        bytes.len() <= u32::MAX,
    ensures
        parse_length_prefixed(length_prefixed(bytes) + rest) == Some(
            (bytes, length_prefixed(bytes).len() as int),
        ),
{
    reveal(parse_length_prefixed);
    let n = bytes.len() as u32;
    let s = length_prefixed(bytes) + rest;
    assert(s =~= compact(n) + (bytes + rest));
    lemma_parse_compact_written(n, bytes + rest);
    let k = compact(n).len() as int;
    assert(s.subrange(k, k + n) =~= bytes);
}

/// What is read as bytes behind their length stands at the front in that form.
pub proof fn lemma_parse_length_prefixed_canonical(s: Seq<u8>)
    requires
        parse_length_prefixed(s) is Some,
    ensures
        ({
            let (bytes, k) = parse_length_prefixed(s)->0;
            &&& bytes.len() <= u32::MAX
            &&& 1 <= k <= s.len()
            &&& k == length_prefixed(bytes).len()
            &&& s.subrange(0, k) == length_prefixed(bytes)
        }),
{
    reveal(parse_length_prefixed);
    lemma_parse_compact_canonical(s);
    let (n, c) = parse_compact(s)->0;
    let (bytes, k) = parse_length_prefixed(s)->0;
    assert(s.subrange(0, k) =~= s.subrange(0, c) + bytes);
}

/// Reads the compact length that starts at `at`.
pub fn read_compact(bytes: &[u8], at: usize) -> (read: Option<(u32, usize)>)
    requires
        at <= bytes@.len(),
    ensures
        match read {
            Some((n, k)) => parse_compact(bytes@.skip(at as int)) == Some((n, k as int)),
            None => parse_compact(bytes@.skip(at as int)) is None,
        },
{
    let total: usize = bytes.len();
    let ghost s = bytes@.skip(at as int);
    if at >= total {
        return None;
    }
    let b0: u8 = bytes[at];
    assert(s[0] == b0);
    let mode: u8 = b0 % 4;
    if mode == 0 {
        Some(((b0 / 4) as u32, 1))
    } else if mode == 1 {
        if total - at < 2 {
            return None;
        }
        assert(s.subrange(0, 2) =~= bytes@.subrange(at as int, at + 2));
        let x: u16 = get_u16(bytes, at) / 4;
        if x > 63 {
            Some((x as u32, 2))
        } else {
            None
        }
    } else if mode == 2 {
        if total - at < 4 {
            return None;
        }
        assert(s.subrange(0, 4) =~= bytes@.subrange(at as int, at + 4));
        let x: u32 = get_u32(bytes, at) / 4;
        if x > 16383 {
            Some((x, 4))
        } else {
            None
        }
    } else {
        if b0 != 3 || total - at < 5 {
            return None;
        }
        assert(s.subrange(1, 5) =~= bytes@.subrange(at + 1, at + 1 + 4));
        let x: u32 = get_u32(bytes, at + 1);
        if x > 1073741823 {
            Some((x, 5))
        } else {
            None
        }
    }
}

/// Reads the bytes behind the compact length that starts at `at`. Gives them
/// with the place right behind them.
pub fn read_length_prefixed(bytes: &[u8], at: usize) -> (read: Option<(Vec<u8>, usize)>)
    requires
        at <= bytes@.len(),
    ensures
        match read {
            Some((part, end)) => {
                &&& at <= end <= bytes@.len()
                &&& parse_length_prefixed(bytes@.skip(at as int)) == Some((part@, end - at))
            },
            None => parse_length_prefixed(bytes@.skip(at as int)) is None,
        },
{
    proof {
        reveal(parse_length_prefixed);
    }
    let total: usize = bytes.len();
    let ghost s = bytes@.skip(at as int);
    match read_compact(bytes, at) {
        None => None,
        Some((n, k)) => {
            proof {
                lemma_parse_compact_canonical(s);
            }
            let start: usize = at + k;
            if n as usize as u32 != n || n as usize > total - start {
                return None;
            }
            let end: usize = start + n as usize;
            let mut part: Vec<u8> = Vec::new();
            put_bytes(&mut part, vstd::slice::slice_subrange(bytes, start, end));
            assert(part@ =~= s.subrange(k as int, k + n));
            Some((part, end))
        },
    }
}

/// Appends every byte of `src`.
pub fn put_bytes(out: &mut Vec<u8>, src: &[u8])
    ensures
        final(out)@ == old(out)@ + src@,
{
    let mut i: usize = 0;
    while i < src.len()
        invariant
            i <= src@.len(),
            out@ == old(out)@ + src@.subrange(0, i as int),
        decreases src@.len() - i,
    {
        out.push(src[i]);
        i += 1;
        assert(out@ =~= old(out)@ + src@.subrange(0, i as int));
    }
    assert(src@.subrange(0, i as int) =~= src@);
}

/// Reads two little-endian bytes that start at `at`.
pub fn get_u16(bytes: &[u8], at: usize) -> (x: u16)
    requires
        at + 2 <= bytes@.len(),
    ensures
        x == u16_from_le(bytes@.subrange(at as int, at + 2)),
{
    let b0: u16 = bytes[at] as u16;
    let b1: u16 = bytes[at + 1] as u16;
    b0 + 256 * b1
}

/// Reads four little-endian bytes that start at `at`.
pub fn get_u32(bytes: &[u8], at: usize) -> (x: u32)
    requires
        at + 4 <= bytes@.len(),
    ensures
        x == u32_from_le(bytes@.subrange(at as int, at + 4)),
{
    let b0: u32 = bytes[at] as u32;
    let b1: u32 = bytes[at + 1] as u32;
    let b2: u32 = bytes[at + 2] as u32;
    let b3: u32 = bytes[at + 3] as u32;
    b0 + 256 * b1 + 65536 * b2 + 16777216 * b3
}

/// Copies the `N` bytes that start at `at` into an array.
pub fn get_array<const N: usize>(bytes: &[u8], at: usize) -> (a: [u8; N])
    requires
        at + N <= bytes@.len(),
    ensures
        a@ == bytes@.subrange(at as int, at + N),
{
    let total: usize = bytes.len();
    let mut a: [u8; N] = [0u8; N];
    let mut i: usize = 0;
    while i < N
        invariant
            i <= N,
            at + N <= total,
            total == bytes@.len(),
            forall|j: int| 0 <= j < i ==> a@[j] == bytes@[at + j],
        decreases N - i,
    {
        a[i] = bytes[at + i];
        i += 1;
    }
    assert(a@ =~= bytes@.subrange(at as int, at + N));
    a
}

/// Tells whether two arrays hold the same bytes.
pub fn same_bytes<const N: usize>(a: &[u8; N], b: &[u8; N]) -> (same: bool)
    ensures
        same == (a@ == b@),
        same == (*a == *b),
{
    let mut i: usize = 0;
    while i < N
        invariant
            i <= N,
            forall|j: int| 0 <= j < i ==> a@[j] == b@[j],
        decreases N - i,
    {
        if a[i] != b[i] {
            return false;
        }
        i += 1;
    }
    assert(a@ =~= b@);
    assert(*a =~= *b);
    true
}

/// Tells whether every byte of the array is zero.
pub fn all_zero<const N: usize>(a: &[u8; N]) -> (zero: bool)
    ensures
        zero == (a@ == zeros(N as nat)),
{
    let mut i: usize = 0;
    while i < N
        invariant
            i <= N,
            forall|j: int| 0 <= j < i ==> a@[j] == 0,
        decreases N - i,
    {
        if a[i] != 0 {
            return false;
        }
        i += 1;
    }
    assert(a@ =~= zeros(N as nat));
    true
}

} // verus!

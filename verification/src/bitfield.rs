//! A growable field of bits, kept in a `BitVec` of the `bitvec` crate.

use vstd::prelude::*;
use bitvec::order::Lsb0;
use bitvec::vec::BitVec;
use bitvec::field::BitField;

verus! {

/// A field of bits with one bit per validator, stored in bytes with the least
/// significant bit of each byte first.
///
/// The bits live in a `bitvec::vec::BitVec<u8, Lsb0>`, which is kept out of the
/// verifier's sight: all that is known of a field is what the functions below
/// state of [`bitfield_bits`].
#[verifier::external_body]
#[derive(Debug)]
pub struct Bitfield {
    bits: BitVec<u8, Lsb0>,
}

/// The bits that a field holds, in order.
pub uninterp spec fn bitfield_bits(field: Bitfield) -> Seq<bool>;

impl View for Bitfield {
    type V = Seq<bool>;

    open spec fn view(&self) -> Seq<bool> {
        bitfield_bits(*self)
    }
}

/// The largest number of bits that a field can hold.
pub open spec fn max_bits() -> nat {
    (usize::MAX / 8) as nat
}

/// The eight bits of a byte, least significant first.
pub open spec fn byte_bits(byte: u8) -> Seq<bool> {
    seq![
        byte % 2 == 1,
        byte / 2 % 2 == 1,
        byte / 4 % 2 == 1,
        byte / 8 % 2 == 1,
        byte / 16 % 2 == 1,
        byte / 32 % 2 == 1,
        byte / 64 % 2 == 1,
        byte / 128 % 2 == 1,
    ]
}

/// What a bit counts at the first place.
pub open spec fn bit(b: bool) -> nat {
    if b {
        1
    } else {
        0
    }
}

/// The number that bits stand for when the first bit counts 1, the next 2, the
/// next 4 and so on.
pub open spec fn bits_value(bits: Seq<bool>) -> nat
    decreases bits.len(),
{
    if bits.len() == 0 {
        0
    } else {
        bit(bits[0]) + 2 * bits_value(bits.skip(1))
    }
}

/// The number that eight bits stand for, written out.
pub proof fn lemma_bits_value_of_eight(bits: Seq<bool>)
    requires
        bits.len() == 8,
    ensures
        bits_value(bits) == bit(bits[0]) + 2 * bit(bits[1]) + 4 * bit(bits[2]) + 8 * bit(bits[3])
            + 16 * bit(bits[4]) + 32 * bit(bits[5]) + 64 * bit(bits[6]) + 128 * bit(bits[7]),
{
    let b1 = bits.skip(1);
    let b2 = b1.skip(1);
    let b3 = b2.skip(1);
    let b4 = b3.skip(1);
    let b5 = b4.skip(1);
    let b6 = b5.skip(1);
    let b7 = b6.skip(1);
    let b8 = b7.skip(1);
    assert(bits_value(b8) == 0);
    assert(bits_value(b7) == bit(bits[7]) + 2 * bits_value(b8));
    assert(bits_value(b6) == bit(bits[6]) + 2 * bits_value(b7));
    assert(bits_value(b5) == bit(bits[5]) + 2 * bits_value(b6));
    assert(bits_value(b4) == bit(bits[4]) + 2 * bits_value(b5));
    assert(bits_value(b3) == bit(bits[3]) + 2 * bits_value(b4));
    assert(bits_value(b2) == bit(bits[2]) + 2 * bits_value(b3));
    assert(bits_value(b1) == bit(bits[1]) + 2 * bits_value(b2));
    assert(bits_value(bits) == bit(bits[0]) + 2 * bits_value(b1));
}

/// The bits of a byte stand for that byte.
pub proof fn lemma_byte_bits_value(byte: u8)
    ensures
        byte_bits(byte).len() == 8,
        bits_value(byte_bits(byte)) == byte,
{
    lemma_bits_value_of_eight(byte_bits(byte));
    assert(byte == (byte % 2) + 2 * (byte / 2 % 2) + 4 * (byte / 4 % 2) + 8 * (byte / 8 % 2) + 16
        * (byte / 16 % 2) + 32 * (byte / 32 % 2) + 64 * (byte / 64 % 2) + 128 * (byte / 128 % 2))
        by (bit_vector);
}

/// Calls `BitVec::new`. Trusted: the new field holds no bit.
#[verifier::external_body]
fn bits_new() -> (field: Bitfield)
    ensures
        bitfield_bits(field) == Seq::<bool>::empty(),
{
    Bitfield { bits: BitVec::new() }
}

/// Calls `BitVec::len`. Trusted: it is the number of bits in the field.
#[verifier::external_body]
fn bits_len(field: &Bitfield) -> (len: usize)
    ensures
        len == bitfield_bits(*field).len(),
{
    field.bits.len()
}

/// Indexes the `BitVec`, which panics past the end. Trusted: it is the bit at
/// that place.
#[verifier::external_body]
fn bits_get(field: &Bitfield, at: usize) -> (bit: bool)
    requires
        at < bitfield_bits(*field).len(),
    ensures
        bit == bitfield_bits(*field)[at as int],
{
    field.bits[at]
}

/// Calls `BitVec::push`, which panics where the field would outgrow what its
/// handle can describe. Trusted: the bit is added at the end.
#[verifier::external_body]
fn bits_push(field: &mut Bitfield, bit: bool)
    requires
        bitfield_bits(*old(field)).len() < max_bits(),
    ensures
        bitfield_bits(*final(field)) == bitfield_bits(*old(field)).push(bit),
{
    field.bits.push(bit)
}

/// Calls `BitVec::from_vec` on a vector of one byte. Trusted: the field holds the
/// eight bits of the byte, least significant first.
#[verifier::external_body]
fn bits_of_byte(byte: u8) -> (field: Bitfield)
    ensures
        bitfield_bits(field) == byte_bits(byte),
{
    Bitfield { bits: BitVec::from_vec(vec![byte]) }
}

/// Calls `extend` of `BitVec`, which panics where the field would outgrow what
/// its handle can describe. Trusted: the bits of `more` are added at the end, in
/// order.
#[verifier::external_body]
fn bits_extend(field: &mut Bitfield, more: Bitfield)
    requires
        bitfield_bits(*old(field)).len() + bitfield_bits(more).len() <= max_bits(),
    ensures
        bitfield_bits(*final(field)) == bitfield_bits(*old(field)) + bitfield_bits(more),
{
    field.bits.extend(more.bits)
}

/// Calls `split_at`, which panics past the end, and copies the first part with
/// `to_bitvec`. Trusted: the copy holds the first `mid` bits.
#[verifier::external_body]
fn bits_prefix(field: &Bitfield, mid: usize) -> (prefix: Bitfield)
    requires
        mid <= bitfield_bits(*field).len(),
    ensures
        bitfield_bits(prefix) == bitfield_bits(*field).take(mid as int),
{
    Bitfield { bits: field.bits.split_at(mid).0.to_bitvec() }
}

/// Calls `split_at`, which panics past the end, and `load_le` on the second part,
/// which panics unless that part has from one to eight bits. Trusted: the bits
/// behind `mid` are read as a number, the first of them counting 1.
#[verifier::external_body]
fn bits_load_tail(field: &Bitfield, mid: usize) -> (value: u8)
    requires
        mid < bitfield_bits(*field).len(),
        bitfield_bits(*field).len() - mid <= 8,
    ensures
        value == bits_value(bitfield_bits(*field).skip(mid as int)),
{
    field.bits.split_at(mid).1.load_le::<u8>()
}

/// Calls `clone` of `BitVec`. Trusted: the copy holds the same bits.
#[verifier::external_body]
fn bits_clone(field: &Bitfield) -> (copy: Bitfield)
    ensures
        bitfield_bits(copy) == bitfield_bits(*field),
{
    Bitfield { bits: field.bits.clone() }
}

impl Clone for Bitfield {
    fn clone(&self) -> (copy: Self)
        ensures
            copy@ == self@,
    {
        bits_clone(self)
    }
}

/// Compares the two `BitVec`s with `==`. Trusted: they are equal exactly when they
/// hold the same bits.
#[verifier::external_body]
fn bits_same(a: &Bitfield, b: &Bitfield) -> (same: bool)
    ensures
        same == (bitfield_bits(*a) == bitfield_bits(*b)),
{
    a.bits == b.bits
}

impl PartialEq for Bitfield {
    fn eq(&self, other: &Self) -> (same: bool) {
        bits_same(self, other)
    }
}

impl Eq for Bitfield {}

impl vstd::std_specs::cmp::PartialEqSpecImpl for Bitfield {
    open spec fn obeys_eq_spec() -> bool {
        true
    }

    open spec fn eq_spec(&self, other: &Self) -> bool {
        self@ == other@
    }
}

impl Bitfield {
    /// A field without bits.
    pub fn new() -> (field: Self)
        ensures
            field@ == Seq::<bool>::empty(),
    {
        bits_new()
    }

    /// A field with the given bits.
    pub fn from_bools(bits: &[bool]) -> (field: Self)
        requires
            bits@.len() <= max_bits(),
        ensures
            field@ == bits@,
    {
        let mut field = bits_new();
        let mut i: usize = 0;
        while i < bits.len()
            invariant
                i <= bits@.len(),
                bits@.len() <= max_bits(),
                field@ == bits@.take(i as int),
            decreases bits@.len() - i,
        {
            bits_push(&mut field, bits[i]);
            i += 1;
            assert(field@ =~= bits@.take(i as int));
        }
        assert(bits@.take(i as int) =~= bits@);
        field
    }

    /// The bits of the field.
    pub fn to_bools(&self) -> (bits: Vec<bool>)
        ensures
            bits@ == self@,
    {
        let n: usize = bits_len(self);
        let mut bits: Vec<bool> = Vec::new();
        let mut i: usize = 0;
        while i < n
            invariant
                i <= n,
                n == self@.len(),
                bits@ == self@.take(i as int),
            decreases n - i,
        {
            bits.push(bits_get(self, i));
            i += 1;
            assert(bits@ =~= self@.take(i as int));
        }
        assert(self@.take(n as int) =~= self@);
        bits
    }

    /// The number of bits.
    pub fn len(&self) -> (len: usize)
        ensures
            len == self@.len(),
    {
        bits_len(self)
    }

    /// The bit at `at`, if the field is that long.
    pub fn get(&self, at: usize) -> (bit: Option<bool>)
        ensures
            bit == (if at < self@.len() {
                Some(self@[at as int])
            } else {
                None
            }),
    {
        if at < bits_len(self) {
            Some(bits_get(self, at))
        } else {
            None
        }
    }

    /// Adds the eight bits of `byte` at the end, least significant first.
    pub fn push_byte(&mut self, byte: u8)
        requires
            old(self)@.len() + 8 <= max_bits(),
        ensures
            final(self)@ == old(self)@ + byte_bits(byte),
    {
        let more = bits_of_byte(byte);
        bits_extend(self, more);
    }

    /// A copy of the first `mid` bits.
    pub fn prefix(&self, mid: usize) -> (prefix: Self)
        requires
            mid <= self@.len(),
        ensures
            prefix@ == self@.take(mid as int),
    {
        bits_prefix(self, mid)
    }

    /// The last eight bits read as a byte, the first of them counting 1.
    pub fn last_byte(&self) -> (byte: u8)
        requires
            self@.len() >= 8,
        ensures
            byte == bits_value(self@.skip(self@.len() - 8)),
    {
        let n: usize = bits_len(self);
        bits_load_tail(self, n - 8)
    }
}

} // verus!

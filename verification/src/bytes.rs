//! Big-endian integers read from a byte sequence.

use vstd::prelude::*;

verus! {

/// The bytes of `bytes` from `from` on.
pub open spec fn tail(bytes: Seq<u8>, from: int) -> Seq<u8> {
    bytes.subrange(from, bytes.len() as int)
}

/// The unsigned 16-bit big-endian integer at `at`.
pub open spec fn spec_u16_be(s: Seq<u8>, at: int) -> int {
    s[at] * 0x100 + s[at + 1]
}

/// The unsigned 24-bit big-endian integer at `at`.
pub open spec fn spec_u24_be(s: Seq<u8>, at: int) -> int {
    s[at] * 0x1_0000 + s[at + 1] * 0x100 + s[at + 2]
}

/// The unsigned 32-bit big-endian integer at `at`.
pub open spec fn spec_u32_be(s: Seq<u8>, at: int) -> int {
    s[at] * 0x100_0000 + s[at + 1] * 0x1_0000 + s[at + 2] * 0x100 + s[at + 3]
}

/// The unsigned 64-bit big-endian integer at `at`.
pub open spec fn spec_u64_be(s: Seq<u8>, at: int) -> int {
    spec_u32_be(s, at) * 0x1_0000_0000 + spec_u32_be(s, at + 4)
}

/// The value of the bit pattern `v` read as a two's-complement number,
/// where `half` is the lowest pattern that stands for a negative number
/// (2^15 for sixteen bits, 2^23 for twenty-four).
pub open spec fn spec_signed(v: int, half: int) -> int {
    if v >= half {
        v - 2 * half
    } else {
        v
    }
}

/// Reads the two bytes at `at` as one big-endian number.
pub fn u16_be(input: &[u8], at: usize) -> (r: u16)
    requires
        at + 2 <= input@.len(),
    ensures
        r == spec_u16_be(input@, at as int),
{
    (input[at] as u16) * 0x100 + (input[at + 1] as u16)
}

/// Reads the three bytes at `at` as one big-endian number.
pub fn u24_be(input: &[u8], at: usize) -> (r: u32)
    requires
        at + 3 <= input@.len(),
    ensures
        r == spec_u24_be(input@, at as int),
        r < 0x100_0000,
{
    (input[at] as u32) * 0x1_0000 + (input[at + 1] as u32) * 0x100 + (input[at + 2] as u32)
}

/// Reads the four bytes at `at` as one big-endian number.
pub fn u32_be(input: &[u8], at: usize) -> (r: u32)
    requires
        at + 4 <= input@.len(),
    ensures
        r == spec_u32_be(input@, at as int),
{
    (input[at] as u32) * 0x100_0000 + (input[at + 1] as u32) * 0x1_0000 + (input[at + 2] as u32)
        * 0x100 + (input[at + 3] as u32)
}

/// Reads the eight bytes at `at` as one big-endian number.
pub fn u64_be(input: &[u8], at: usize) -> (r: u64)
    requires
        at + 8 <= input@.len(),
    ensures
        r == spec_u64_be(input@, at as int),
{
    let len: usize = input.len();
    let hi: u32 = u32_be(input, at);
    let lo: u32 = u32_be(input, at + 4);
    (hi as u64) * 0x1_0000_0000 + (lo as u64)
}

/// Sign-extends a 16-bit pattern.
pub fn signed16(v: u16) -> (r: i16)
    ensures
        r == spec_signed(v as int, 0x8000),
{
    if v >= 0x8000 {
        ((v as i32) - 0x1_0000) as i16
    } else {
        v as i16
    }
}

/// Sign-extends a 24-bit pattern to 32 bits.
pub fn signed24(v: u32) -> (r: i32)
    requires
        v < 0x100_0000,
    ensures
        r == spec_signed(v as int, 0x80_0000),
{
    if v >= 0x80_0000 {
        (v as i32) - 0x100_0000
    } else {
        v as i32
    }
}

/// The three bytes that hold `v` in big-endian order, for `0 <= v < 2^24`.
pub open spec fn spec_u24_be_bytes(v: int) -> Seq<u8> {
    seq![(v / 0x1_0000) as u8, ((v / 0x100) % 0x100) as u8, (v % 0x100) as u8]
}

/// The four bytes that hold `v` in big-endian order.
pub open spec fn spec_u32_be_bytes(v: u32) -> Seq<u8> {
    seq![
        (v / 0x100_0000) as u8,
        ((v / 0x1_0000) % 0x100) as u8,
        ((v / 0x100) % 0x100) as u8,
        (v % 0x100) as u8,
    ]
}

/// The eight bytes that hold `v` in big-endian order.
pub open spec fn spec_u64_be_bytes(v: u64) -> Seq<u8> {
    spec_u32_be_bytes((v / 0x1_0000_0000) as u32) + spec_u32_be_bytes((v % 0x1_0000_0000) as u32)
}

/// The bit pattern that holds the signed number `v` in two's complement,
/// for `-half <= v < half`, with `half` as in `spec_signed`.
pub open spec fn spec_unsigned(v: int, half: int) -> int {
    if v < 0 {
        v + 2 * half
    } else {
        v
    }
}

/// Reading a signed number back from its bit pattern gives the number.
pub proof fn lemma_signed_round_trip(v: int, half: int)
    requires
        -half <= v < half,
    ensures
        spec_signed(spec_unsigned(v, half), half) == v,
        0 <= spec_unsigned(v, half) < 2 * half,
{
}

/// Reading three big-endian bytes back gives the number that they hold, and
/// the bytes of a number that was read are the bytes it was read from.
pub proof fn lemma_u24_round_trip(v: int, s: Seq<u8>, at: int)
    requires
        0 <= v < 0x100_0000,
        0 <= at,
        at + 3 <= s.len(),
    ensures
        spec_u24_be(spec_u24_be_bytes(v), 0) == v,
        spec_u24_be_bytes(spec_u24_be(s, at)) == s.subrange(at, at + 3),
{
    assert(spec_u24_be_bytes(spec_u24_be(s, at)) =~= s.subrange(at, at + 3));
}

/// The four bytes of a number, put together again, give the number.
pub proof fn lemma_u32_joined(v: u32)
    ensures
        (v / 0x100_0000) * 0x100_0000 + ((v / 0x1_0000) % 0x100) * 0x1_0000 + ((v / 0x100) % 0x100)
            * 0x100 + (v % 0x100) == v,
{
}

/// A number put together from four bytes has those four bytes.
pub proof fn lemma_u32_parted(b0: u8, b1: u8, b2: u8, b3: u8)
    ensures
        ({
            let r = b0 * 0x100_0000 + b1 * 0x1_0000 + b2 * 0x100 + b3;
            &&& 0 <= r <= u32::MAX
            &&& r / 0x100_0000 == b0
            &&& (r / 0x1_0000) % 0x100 == b1
            &&& (r / 0x100) % 0x100 == b2
            &&& r % 0x100 == b3
        }),
{
}

/// Reading four big-endian bytes back gives the number that they hold, and
/// the bytes of a number that was read are the bytes it was read from.
pub proof fn lemma_u32_round_trip(v: u32, s: Seq<u8>, at: int)
    requires
        0 <= at,
        at + 4 <= s.len(),
    ensures
        spec_u32_be(spec_u32_be_bytes(v), 0) == v,
        spec_u32_be_bytes(spec_u32_be(s, at) as u32) == s.subrange(at, at + 4),
{
    lemma_u32_joined(v);
    lemma_u32_parted(s[at], s[at + 1], s[at + 2], s[at + 3]);
    let r = spec_u32_be(s, at) as u32;
    let back = spec_u32_be_bytes(r);
    assert(back[0] == s[at]);
    assert(back[1] == s[at + 1]);
    assert(back[2] == s[at + 2]);
    assert(back[3] == s[at + 3]);
    assert(back =~= s.subrange(at, at + 4));
}

/// Reading eight big-endian bytes back gives the number that they hold, and
/// the bytes of a number that was read are the bytes it was read from.
pub proof fn lemma_u64_round_trip(v: u64, s: Seq<u8>, at: int)
    requires
        0 <= at,
        at + 8 <= s.len(),
    ensures
        spec_u64_be(spec_u64_be_bytes(v), 0) == v,
        spec_u64_be_bytes(spec_u64_be(s, at) as u64) == s.subrange(at, at + 8),
{
    let hi = (v / 0x1_0000_0000) as u32;
    let lo = (v % 0x1_0000_0000) as u32;
    lemma_u32_round_trip(hi, s, at);
    lemma_u32_round_trip(lo, s, at + 4);
    let b = spec_u64_be_bytes(v);
    assert(spec_u32_be(b, 0) == spec_u32_be(spec_u32_be_bytes(hi), 0));
    assert(spec_u32_be(b, 4) == spec_u32_be(spec_u32_be_bytes(lo), 0));
    let r = spec_u64_be(s, at) as u64;
    assert((r / 0x1_0000_0000) as u32 == spec_u32_be(s, at));
    assert((r % 0x1_0000_0000) as u32 == spec_u32_be(s, at + 4));
    assert(spec_u64_be_bytes(r) =~= s.subrange(at, at + 8));
}

} // verus!

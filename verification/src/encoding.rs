//! Big-endian encodings of the fixed-width integers that the wire formats use.

use vstd::prelude::*;

verus! {

/// The eight big-endian bytes of `x`, most significant first.
pub open spec fn be_u64(x: u64) -> Seq<u8> {
    seq![
        (x >> 56u64) as u8,
        (x >> 48u64) as u8,
        (x >> 40u64) as u8,
        (x >> 32u64) as u8,
        (x >> 24u64) as u8,
        (x >> 16u64) as u8,
        (x >> 8u64) as u8,
        x as u8,
    ]
}

/// The `u64` whose big-endian bytes are the first eight of `s`.
pub open spec fn be_u64_value(s: Seq<u8>) -> u64 {
    ((s[0] as u64) << 56u64) | ((s[1] as u64) << 48u64) | ((s[2] as u64) << 40u64) | ((s[3] as u64)
        << 32u64) | ((s[4] as u64) << 24u64) | ((s[5] as u64) << 16u64) | ((s[6] as u64) << 8u64)
        | (s[7] as u64)
}

/// The two big-endian bytes of `x`.
pub open spec fn be_u16(x: u16) -> Seq<u8> {
    seq![(x >> 8u16) as u8, x as u8]
}

/// The `u16` whose big-endian bytes are the first two of `s`.
pub open spec fn be_u16_value(s: Seq<u8>) -> u16 {
    ((s[0] as u16) << 8u16) | (s[1] as u16)
}

/// The four big-endian bytes of `x`.
pub open spec fn be_u32(x: u32) -> Seq<u8> {
    seq![(x >> 24u32) as u8, (x >> 16u32) as u8, (x >> 8u32) as u8, x as u8]
}

/// The `u32` whose big-endian bytes are the first four of `s`.
pub open spec fn be_u32_value(s: Seq<u8>) -> u32 {
    ((s[0] as u32) << 24u32) | ((s[1] as u32) << 16u32) | ((s[2] as u32) << 8u32) | (s[3] as u32)
}

/// The sixteen big-endian bytes of `x`.
pub open spec fn be_u128(x: u128) -> Seq<u8> {
    be_u64((x >> 64u128) as u64) + be_u64(x as u64)
}

/// The `u128` whose big-endian bytes are the first sixteen of `s`.
pub open spec fn be_u128_value(s: Seq<u8>) -> u128 {
    ((be_u64_value(s) as u128) << 64u128) | (be_u64_value(s.subrange(8, 16)) as u128)
}

/// The eight big-endian bytes of the two's complement form of `x`.
pub open spec fn be_i64(x: i64) -> Seq<u8> {
    be_u64(x as u64)
}

/// The `i64` whose big-endian two's complement bytes are the first eight of `s`.
pub open spec fn be_i64_value(s: Seq<u8>) -> i64 {
    be_u64_value(s) as i64
}

/// Decoding the encoding of a `u64` gives it back.
pub proof fn lemma_be_u64_roundtrip(x: u64)
    ensures
        be_u64(x).len() == 8,
        be_u64_value(be_u64(x)) == x,
{
    let s = be_u64(x);
    assert(s[0] == (x >> 56u64) as u8);
    assert(s[7] == x as u8);
    assert(((((x >> 56u64) as u8) as u64) << 56u64) | ((((x >> 48u64) as u8) as u64) << 48u64)
        | ((((x >> 40u64) as u8) as u64) << 40u64) | ((((x >> 32u64) as u8) as u64) << 32u64) | ((((x
        >> 24u64) as u8) as u64) << 24u64) | ((((x >> 16u64) as u8) as u64) << 16u64) | ((((x
        >> 8u64) as u8) as u64) << 8u64) | ((x as u8) as u64) == x) by (bit_vector);
}

/// Encoding the value of eight bytes gives the bytes back.
pub proof fn lemma_be_u64_value_roundtrip(s: Seq<u8>)
    requires
        s.len() == 8,
    ensures
        be_u64(be_u64_value(s)) == s,
{
    let (b0, b1, b2, b3, b4, b5, b6, b7) = (s[0], s[1], s[2], s[3], s[4], s[5], s[6], s[7]);
    let v = be_u64_value(s);
    assert(v == ((b0 as u64) << 56u64) | ((b1 as u64) << 48u64) | ((b2 as u64) << 40u64) | ((
    b3 as u64) << 32u64) | ((b4 as u64) << 24u64) | ((b5 as u64) << 16u64) | ((b6 as u64) << 8u64)
        | (b7 as u64));
    assert((v >> 56u64) as u8 == b0 && (v >> 48u64) as u8 == b1 && (v >> 40u64) as u8 == b2 && (v
        >> 32u64) as u8 == b3 && (v >> 24u64) as u8 == b4 && (v >> 16u64) as u8 == b5 && (v
        >> 8u64) as u8 == b6 && v as u8 == b7) by (bit_vector)
        requires
            v == ((b0 as u64) << 56u64) | ((b1 as u64) << 48u64) | ((b2 as u64) << 40u64) | ((
            b3 as u64) << 32u64) | ((b4 as u64) << 24u64) | ((b5 as u64) << 16u64) | ((b6 as u64)
                << 8u64) | (b7 as u64),
    ;
    assert(be_u64(v) =~= s);
}

/// Decoding the encoding of a `u16` gives it back.
pub proof fn lemma_be_u16_roundtrip(x: u16)
    ensures
        be_u16(x).len() == 2,
        be_u16_value(be_u16(x)) == x,
{
    assert(((((x >> 8u16) as u8) as u16) << 8u16) | ((x as u8) as u16) == x) by (bit_vector);
}

/// Decoding the encoding of a `u32` gives it back.
pub proof fn lemma_be_u32_roundtrip(x: u32)
    ensures
        be_u32(x).len() == 4,
        be_u32_value(be_u32(x)) == x,
{
    assert(((((x >> 24u32) as u8) as u32) << 24u32) | ((((x >> 16u32) as u8) as u32) << 16u32)
        | ((((x >> 8u32) as u8) as u32) << 8u32) | ((x as u8) as u32) == x) by (bit_vector);
}

/// Decoding the encoding of a `u128` gives it back.
pub proof fn lemma_be_u128_roundtrip(x: u128)
    ensures
        be_u128(x).len() == 16,
        be_u128_value(be_u128(x)) == x,
{
    let hi = (x >> 64u128) as u64;
    let lo = x as u64;
    lemma_be_u64_roundtrip(hi);
    lemma_be_u64_roundtrip(lo);
    let s = be_u128(x);
    assert(s.subrange(0, 8) =~= be_u64(hi));
    assert(s.subrange(8, 16) =~= be_u64(lo));
    assert(be_u64_value(s) == be_u64_value(s.subrange(0, 8)));
    assert(((hi as u128) << 64u128) | (lo as u128) == x) by (bit_vector)
        requires
            hi == (x >> 64u128) as u64,
            lo == x as u64,
    ;
}

/// Decoding the encoding of an `i64` gives it back.
pub proof fn lemma_be_i64_roundtrip(x: i64)
    ensures
        be_i64(x).len() == 8,
        be_i64_value(be_i64(x)) == x,
{
    lemma_be_u64_roundtrip(x as u64);
    assert((x as u64) as i64 == x) by (bit_vector);
}

/// Encoding the value of eight bytes as an `i64` gives the bytes back.
pub proof fn lemma_be_i64_value_roundtrip(s: Seq<u8>)
    requires
        s.len() == 8,
    ensures
        be_i64(be_i64_value(s)) == s,
{
    let v = be_u64_value(s);
    lemma_be_u64_value_roundtrip(s);
    assert((v as i64) as u64 == v) by (bit_vector);
}

/// The big-endian bytes of `x` (`u64::to_be_bytes`).
pub fn u64_to_be_bytes(x: u64) -> (r: [u8; 8])
    ensures
        r@ == be_u64(x),
{
    let r = [
        (x >> 56u64) as u8,
        (x >> 48u64) as u8,
        (x >> 40u64) as u8,
        (x >> 32u64) as u8,
        (x >> 24u64) as u8,
        (x >> 16u64) as u8,
        (x >> 8u64) as u8,
        x as u8,
    ];
    assert(r@ =~= be_u64(x));
    r
}

/// The `u64` whose big-endian bytes are `s[0..8]` (`u64::from_be_bytes`).
pub fn u64_from_be_bytes(s: &[u8]) -> (x: u64)
    requires
        s@.len() >= 8,
    ensures
        x == be_u64_value(s@),
{
    ((s[0] as u64) << 56u64) | ((s[1] as u64) << 48u64) | ((s[2] as u64) << 40u64) | ((s[3] as u64)
        << 32u64) | ((s[4] as u64) << 24u64) | ((s[5] as u64) << 16u64) | ((s[6] as u64) << 8u64)
        | (s[7] as u64)
}

/// The big-endian bytes of `x` (`u16::to_be_bytes`).
pub fn u16_to_be_bytes(x: u16) -> (r: [u8; 2])
    ensures
        r@ == be_u16(x),
{
    let r = [(x >> 8u16) as u8, x as u8];
    assert(r@ =~= be_u16(x));
    r
}

/// The `u16` whose big-endian bytes are `s[0..2]` (`u16::from_be_bytes`).
pub fn u16_from_be_bytes(s: &[u8]) -> (x: u16)
    requires
        s@.len() >= 2,
    ensures
        x == be_u16_value(s@),
{
    ((s[0] as u16) << 8u16) | (s[1] as u16)
}

/// The big-endian bytes of `x` (`u32::to_be_bytes`).
pub fn u32_to_be_bytes(x: u32) -> (r: [u8; 4])
    ensures
        r@ == be_u32(x),
{
    let r = [(x >> 24u32) as u8, (x >> 16u32) as u8, (x >> 8u32) as u8, x as u8];
    assert(r@ =~= be_u32(x));
    r
}

/// The `u32` whose big-endian bytes are `s[0..4]` (`u32::from_be_bytes`).
pub fn u32_from_be_bytes(s: &[u8]) -> (x: u32)
    requires
        s@.len() >= 4,
    ensures
        x == be_u32_value(s@),
{
    ((s[0] as u32) << 24u32) | ((s[1] as u32) << 16u32) | ((s[2] as u32) << 8u32) | (s[3] as u32)
}

/// The big-endian bytes of `x` (`u128::to_be_bytes`).
pub fn u128_to_be_bytes(x: u128) -> (r: [u8; 16])
    ensures
        r@ == be_u128(x),
{
    let hi = u64_to_be_bytes((x >> 64u128) as u64);
    let lo = u64_to_be_bytes(x as u64);
    let r = [
        hi[0], hi[1], hi[2], hi[3], hi[4], hi[5], hi[6], hi[7],
        lo[0], lo[1], lo[2], lo[3], lo[4], lo[5], lo[6], lo[7],
    ];
    assert(r@ =~= be_u128(x));
    r
}

/// The `u128` whose big-endian bytes are `s[0..16]` (`u128::from_be_bytes`).
pub fn u128_from_be_bytes(s: &[u8]) -> (x: u128)
    requires
        s@.len() >= 16,
    ensures
        x == be_u128_value(s@),
{
    let hi = u64_from_be_bytes(s);
    let tail = &s[8..16];
    let lo = u64_from_be_bytes(tail);
    assert(tail@ =~= s@.subrange(8, 16));
    ((hi as u128) << 64u128) | (lo as u128)
}

/// The big-endian two's complement bytes of `x` (`i64::to_be_bytes`).
pub fn i64_to_be_bytes(x: i64) -> (r: [u8; 8])
    ensures
        r@ == be_i64(x),
{
    u64_to_be_bytes(x as u64)
}

/// The `i64` whose big-endian bytes are `s[0..8]` (`i64::from_be_bytes`).
pub fn i64_from_be_bytes(s: &[u8]) -> (x: i64)
    requires
        s@.len() >= 8,
    ensures
        x == be_i64_value(s@),
{
    u64_from_be_bytes(s) as i64
}

} // verus!

//! Little-endian encodings of fixed-width integers, as used by the binary
//! wire format on both the sending and the receiving side.

use vstd::prelude::*;

verus! {

/// Bytes of a `u16`, least significant first.
pub open spec fn le_bytes_u16(v: u16) -> Seq<u8> {
    seq![v as u8, (v >> 8u16) as u8]
}

/// Bytes of a `u32`, least significant first.
pub open spec fn le_bytes_u32(v: u32) -> Seq<u8> {
    seq![v as u8, (v >> 8u32) as u8, (v >> 16u32) as u8, (v >> 24u32) as u8]
}

/// Bytes of a `u64`, least significant first.
pub open spec fn le_bytes_u64(v: u64) -> Seq<u8> {
    seq![
        v as u8,
        (v >> 8u64) as u8,
        (v >> 16u64) as u8,
        (v >> 24u64) as u8,
        (v >> 32u64) as u8,
        (v >> 40u64) as u8,
        (v >> 48u64) as u8,
        (v >> 56u64) as u8,
    ]
}

/// Two's-complement bytes of an `i8`.
pub open spec fn byte_of_i8(v: i8) -> u8 {
    v as u8
}

/// Two's-complement bytes of an `i16`, least significant first.
pub open spec fn le_bytes_i16(v: i16) -> Seq<u8> {
    le_bytes_u16(v as u16)
}

/// Two's-complement bytes of an `i32`, least significant first.
pub open spec fn le_bytes_i32(v: i32) -> Seq<u8> {
    le_bytes_u32(v as u32)
}

/// Two's-complement bytes of an `i64`, least significant first.
pub open spec fn le_bytes_i64(v: i64) -> Seq<u8> {
    le_bytes_u64(v as u64)
}

/// The `u16` whose little-endian bytes are `b0, b1`.
pub open spec fn u16_from_le(b0: u8, b1: u8) -> u16 {
    (b0 as u16) | ((b1 as u16) << 8u16)
}

/// The `u32` whose little-endian bytes are `b0 .. b3`.
pub open spec fn u32_from_le(b0: u8, b1: u8, b2: u8, b3: u8) -> u32 {
    (b0 as u32) | ((b1 as u32) << 8u32) | ((b2 as u32) << 16u32) | ((b3 as u32) << 24u32)
}

/// The `u64` whose little-endian bytes are `b0 .. b7`.
pub open spec fn u64_from_le(b0: u8, b1: u8, b2: u8, b3: u8, b4: u8, b5: u8, b6: u8, b7: u8) -> u64 {
    (b0 as u64) | ((b1 as u64) << 8u64) | ((b2 as u64) << 16u64) | ((b3 as u64) << 24u64) | ((
    b4 as u64) << 32u64) | ((b5 as u64) << 40u64) | ((b6 as u64) << 48u64) | ((b7 as u64)
        << 56u64)
}

/// The `u16` at the front of `s` (little-endian).
pub open spec fn decode_u16(s: Seq<u8>) -> u16 {
    u16_from_le(s[0], s[1])
}

/// The `u32` at the front of `s` (little-endian).
pub open spec fn decode_u32(s: Seq<u8>) -> u32 {
    u32_from_le(s[0], s[1], s[2], s[3])
}

/// The `u64` at the front of `s` (little-endian).
pub open spec fn decode_u64(s: Seq<u8>) -> u64 {
    u64_from_le(s[0], s[1], s[2], s[3], s[4], s[5], s[6], s[7])
}

/// The `i16` at the front of `s` (little-endian, two's complement).
pub open spec fn decode_i16(s: Seq<u8>) -> i16 {
    decode_u16(s) as i16
}

/// The `i32` at the front of `s` (little-endian, two's complement).
pub open spec fn decode_i32(s: Seq<u8>) -> i32 {
    decode_u32(s) as i32
}

/// The `i64` at the front of `s` (little-endian, two's complement).
pub open spec fn decode_i64(s: Seq<u8>) -> i64 {
    decode_u64(s) as i64
}

/// Decoding the encoding of any integer gives the integer back, and a
/// decoder reads its value from the front of a longer stream unaffected by
/// what follows.
pub proof fn law_scalars_read_back_as_written(
    a: u16,
    b: u32,
    c: u64,
    d: i8,
    e: i16,
    f: i32,
    g: i64,
    rest: Seq<u8>,
)
    ensures
        decode_u16(le_bytes_u16(a) + rest) == a,
        decode_u32(le_bytes_u32(b) + rest) == b,
        decode_u64(le_bytes_u64(c) + rest) == c,
        byte_of_i8(d) as i8 == d,
        decode_i16(le_bytes_i16(e) + rest) == e,
        decode_i32(le_bytes_i32(f) + rest) == f,
        decode_i64(le_bytes_i64(g) + rest) == g,
{
    assert(u16_from_le(a as u8, (a >> 8u16) as u8) == a) by (bit_vector);
    assert(u32_from_le(b as u8, (b >> 8u32) as u8, (b >> 16u32) as u8, (b >> 24u32) as u8) == b)
        by (bit_vector);
    assert(u64_from_le(
        c as u8,
        (c >> 8u64) as u8,
        (c >> 16u64) as u8,
        (c >> 24u64) as u8,
        (c >> 32u64) as u8,
        (c >> 40u64) as u8,
        (c >> 48u64) as u8,
        (c >> 56u64) as u8,
    ) == c) by (bit_vector);
    assert((d as u8) as i8 == d) by (bit_vector);
    let e_bits = e as u16;
    let f_bits = f as u32;
    let g_bits = g as u64;
    assert(u16_from_le(e_bits as u8, (e_bits >> 8u16) as u8) == e_bits) by (bit_vector);
    assert(u32_from_le(f_bits as u8, (f_bits >> 8u32) as u8, (f_bits >> 16u32) as u8, (f_bits >> 24u32) as u8)
        == f_bits) by (bit_vector);
    assert(u64_from_le(
        g_bits as u8,
        (g_bits >> 8u64) as u8,
        (g_bits >> 16u64) as u8,
        (g_bits >> 24u64) as u8,
        (g_bits >> 32u64) as u8,
        (g_bits >> 40u64) as u8,
        (g_bits >> 48u64) as u8,
        (g_bits >> 56u64) as u8,
    ) == g_bits) by (bit_vector);
    assert((e as u16) as i16 == e) by (bit_vector);
    assert((f as u32) as i32 == f) by (bit_vector);
    assert((g as u64) as i64 == g) by (bit_vector);
}

} // verus!

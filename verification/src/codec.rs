//! Positional byte encodings of integers.
//!
//! Every raw sample is a short run of bytes read as a base-256 numeral, least
//! significant byte first (little endian) or last (big endian), and for signed
//! primitives interpreted in two's complement. This module states that reading
//! once, as mathematics, proves that encoding and decoding undo each other,
//! and provides the executable conversions for the widths that occur in sample
//! formats.
use vstd::prelude::*;

verus! {

/// `256^k`, the number of distinct numerals of `k` bytes.
pub open spec fn radix_pow(k: nat) -> nat
    decreases k,
{
    if k == 0 {
        1
    } else {
        256 * radix_pow((k - 1) as nat)
    }
}

/// The natural number that `bytes` denotes when the first byte is the least
/// significant one.
pub open spec fn le_value(bytes: Seq<u8>) -> nat
    decreases bytes.len(),
{
    if bytes.len() == 0 {
        0
    } else {
        bytes[0] as nat + 256 * le_value(bytes.skip(1))
    }
}

/// The natural number that `bytes` denotes when the first byte is the most
/// significant one.
pub open spec fn be_value(bytes: Seq<u8>) -> nat {
    le_value(bytes.reverse())
}

/// Two's-complement reading of an unsigned numeral of `width` bytes.
pub open spec fn signed(u: nat, width: nat) -> int {
    if 2 * u >= radix_pow(width) {
        u - radix_pow(width)
    } else {
        u as int
    }
}

/// The `width` low-order bytes of `v` in two's complement, least significant
/// byte first. Division and remainder are Euclidean, so a negative `v` yields
/// the bytes of `v + 256^width`.
pub open spec fn le_bytes(v: int, width: nat) -> Seq<u8>
    decreases width,
{
    if width == 0 {
        Seq::empty()
    } else {
        seq![(v % 256) as u8].add(le_bytes(v / 256, (width - 1) as nat))
    }
}

/// The `width` low-order bytes of `v` in two's complement, most significant
/// byte first.
pub open spec fn be_bytes(v: int, width: nat) -> Seq<u8> {
    le_bytes(v, width).reverse()
}

/// Whether `v` fits a signed numeral of `width` bytes.
pub open spec fn fits_signed(v: int, width: nat) -> bool {
    -(radix_pow(width) as int) <= 2 * v < radix_pow(width)
}

/// Whether `v` fits an unsigned numeral of `width` bytes.
pub open spec fn fits_unsigned(v: int, width: nat) -> bool {
    0 <= v < radix_pow(width)
}

/// The number of numerals of each width that occurs in sample formats.
pub proof fn lemma_radix_pow_values()
    ensures
        radix_pow(0) == 1,
        radix_pow(1) == 0x100,
        radix_pow(2) == 0x1_0000,
        radix_pow(3) == 0x100_0000,
        radix_pow(4) == 0x1_0000_0000,
        radix_pow(8) == 0x1_0000_0000_0000_0000,
{
    reveal_with_fuel(radix_pow, 10);
}

/// An encoding has as many bytes as were asked for.
pub proof fn lemma_le_bytes_len(v: int, width: nat)
    ensures
        le_bytes(v, width).len() == width,
        be_bytes(v, width).len() == width,
    decreases width,
{
    if width > 0 {
        lemma_le_bytes_len(v / 256, (width - 1) as nat);
    }
}

/// The value of a numeral is below the number of numerals of its length.
pub proof fn lemma_le_value_bound(bytes: Seq<u8>)
    ensures
        le_value(bytes) < radix_pow(bytes.len()),
    decreases bytes.len(),
{
    if bytes.len() > 0 {
        lemma_le_value_bound(bytes.skip(1));
    }
}

/// Adding `256^width` to a value leaves its `width` low-order bytes as they are.
pub proof fn lemma_le_bytes_wrap(v: int, width: nat)
    ensures
        le_bytes(v + radix_pow(width), width) == le_bytes(v, width),
    decreases width,
{
    if width > 0 {
        let rest = radix_pow((width - 1) as nat) as int;
        assert((v + 256 * rest) % 256 == v % 256);
        assert((v + 256 * rest) / 256 == v / 256 + rest);
        lemma_le_bytes_wrap(v / 256, (width - 1) as nat);
    }
}

/// The first `k` bytes of a little-endian encoding are the encoding in `k`
/// bytes.
pub proof fn lemma_le_bytes_prefix(v: int, width: nat, k: nat)
    requires
        k <= width,
    ensures
        le_bytes(v, width).subrange(0, k as int) == le_bytes(v, k),
    decreases k,
{
    lemma_le_bytes_len(v, width);
    if k > 0 {
        lemma_le_bytes_len(v / 256, (width - 1) as nat);
        lemma_le_bytes_prefix(v / 256, (width - 1) as nat, (k - 1) as nat);
        assert(le_bytes(v, width).subrange(0, k as int) =~= seq![(v % 256) as u8].add(
            le_bytes(v / 256, (width - 1) as nat).subrange(0, k - 1),
        ));
    } else {
        assert(le_bytes(v, width).subrange(0, k as int) =~= le_bytes(v, k));
    }
}

/// The last `k` bytes of a big-endian encoding are the encoding in `k` bytes.
pub proof fn lemma_be_bytes_suffix(v: int, width: nat, k: nat)
    requires
        k <= width,
    ensures
        be_bytes(v, width).subrange(width - k, width as int) == be_bytes(v, k),
{
    lemma_le_bytes_len(v, width);
    lemma_le_bytes_len(v, k);
    lemma_le_bytes_prefix(v, width, k);
    assert(be_bytes(v, width).subrange(width - k, width as int) =~= le_bytes(v, width).subrange(
        0,
        k as int,
    ).reverse());
}

/// Decoding an unsigned little-endian numeral undoes encoding.
pub proof fn lemma_le_unsigned_round_trip(v: int, width: nat)
    requires
        fits_unsigned(v, width),
    ensures
        le_value(le_bytes(v, width)) == v,
    decreases width,
{
    if width > 0 {
        let tail = le_bytes(v / 256, (width - 1) as nat);
        lemma_le_unsigned_round_trip(v / 256, (width - 1) as nat);
        assert(le_bytes(v, width).skip(1) =~= tail);
    }
}

/// Decoding a signed little-endian numeral undoes encoding.
pub proof fn lemma_le_signed_round_trip(v: int, width: nat)
    requires
        fits_signed(v, width),
    ensures
        signed(le_value(le_bytes(v, width)), width) == v,
{
    if v >= 0 {
        lemma_le_unsigned_round_trip(v, width);
    } else {
        lemma_le_bytes_wrap(v, width);
        lemma_le_unsigned_round_trip(v + radix_pow(width), width);
    }
}

/// Encoding the value of a little-endian numeral gives the numeral back,
/// whether the value was read as unsigned or in two's complement.
pub proof fn lemma_le_bytes_of_value(bytes: Seq<u8>)
    ensures
        le_bytes(le_value(bytes) as int, bytes.len()) == bytes,
        le_bytes(signed(le_value(bytes), bytes.len()), bytes.len()) == bytes,
        fits_unsigned(le_value(bytes) as int, bytes.len()),
        fits_signed(signed(le_value(bytes), bytes.len()), bytes.len()),
    decreases bytes.len(),
{
    let width = bytes.len();
    lemma_le_value_bound(bytes);
    if width > 0 {
        lemma_le_bytes_of_value(bytes.skip(1));
        assert(le_bytes(le_value(bytes) as int, width) =~= bytes);
    } else {
        assert(le_bytes(le_value(bytes) as int, width) =~= bytes);
    }
    if 2 * le_value(bytes) >= radix_pow(width) {
        lemma_le_bytes_wrap(signed(le_value(bytes), width), width);
    }
}

/// Decoding an unsigned big-endian numeral undoes encoding.
pub proof fn lemma_be_unsigned_round_trip(v: int, width: nat)
    requires
        fits_unsigned(v, width),
    ensures
        be_value(be_bytes(v, width)) == v,
{
    lemma_le_unsigned_round_trip(v, width);
    assert(le_bytes(v, width).reverse().reverse() =~= le_bytes(v, width));
}

/// Decoding a signed big-endian numeral undoes encoding.
pub proof fn lemma_be_signed_round_trip(v: int, width: nat)
    requires
        fits_signed(v, width),
    ensures
        signed(be_value(be_bytes(v, width)), width) == v,
{
    lemma_le_signed_round_trip(v, width);
    assert(le_bytes(v, width).reverse().reverse() =~= le_bytes(v, width));
}

/// Encoding the value of a big-endian numeral gives the numeral back, whether
/// the value was read as unsigned or in two's complement.
pub proof fn lemma_be_bytes_of_value(bytes: Seq<u8>)
    ensures
        be_bytes(be_value(bytes) as int, bytes.len()) == bytes,
        be_bytes(signed(be_value(bytes), bytes.len()), bytes.len()) == bytes,
        fits_unsigned(be_value(bytes) as int, bytes.len()),
        fits_signed(signed(be_value(bytes), bytes.len()), bytes.len()),
{
    lemma_le_bytes_of_value(bytes.reverse());
    assert(bytes.reverse().reverse() =~= bytes);
}

/// The bytes of `le_bytes`, one division at a time, for the widths of sample
/// formats.
proof fn lemma_le_bytes_unfold(v: int, width: nat)
    requires
        1 <= width <= 8,
    ensures
        le_bytes(v, width).len() == width,
        le_bytes(v, width)[0] == (v % 256) as u8,
        width > 1 ==> le_bytes(v, width)[1] == (v / 256 % 256) as u8,
        width > 2 ==> le_bytes(v, width)[2] == (v / 256 / 256 % 256) as u8,
        width > 3 ==> le_bytes(v, width)[3] == (v / 256 / 256 / 256 % 256) as u8,
        width > 4 ==> le_bytes(v, width)[4] == (v / 256 / 256 / 256 / 256 % 256) as u8,
        width > 5 ==> le_bytes(v, width)[5] == (v / 256 / 256 / 256 / 256 / 256 % 256) as u8,
        width > 6 ==> le_bytes(v, width)[6] == (v / 256 / 256 / 256 / 256 / 256 / 256 % 256) as u8,
        width > 7 ==> le_bytes(v, width)[7] == (v / 256 / 256 / 256 / 256 / 256 / 256 / 256
            % 256) as u8,
    decreases width,
{
    lemma_le_bytes_len(v, width);
    if width > 1 {
        lemma_le_bytes_unfold(v / 256, (width - 1) as nat);
    }
}

/// A little-endian numeral in Horner form, for the widths of sample formats.
proof fn lemma_le_value_unfold(bytes: Seq<u8>)
    ensures
        bytes.len() == 1 ==> le_value(bytes) == bytes[0],
        bytes.len() == 2 ==> le_value(bytes) == bytes[0] + 256 * bytes[1],
        bytes.len() == 3 ==> le_value(bytes) == bytes[0] + 256 * (bytes[1] + 256 * bytes[2]),
        bytes.len() == 4 ==> le_value(bytes) == bytes[0] + 256 * (bytes[1] + 256 * (bytes[2] + 256
            * bytes[3])),
        bytes.len() == 8 ==> le_value(bytes) == bytes[0] + 256 * (bytes[1] + 256 * (bytes[2] + 256
            * (bytes[3] + 256 * (bytes[4] + 256 * (bytes[5] + 256 * (bytes[6] + 256
            * bytes[7])))))),
{
    reveal_with_fuel(le_value, 10);
    if 1 <= bytes.len() <= 8 {
        let s1 = bytes.skip(1);
        let s2 = s1.skip(1);
        let s3 = s2.skip(1);
        let s4 = s3.skip(1);
        let s5 = s4.skip(1);
        let s6 = s5.skip(1);
        let s7 = s6.skip(1);
        if bytes.len() >= 2 {
            assert(s1[0] == bytes[1]);
        }
        if bytes.len() >= 3 {
            assert(s2[0] == bytes[2]);
        }
        if bytes.len() >= 4 {
            assert(s3[0] == bytes[3]);
        }
        if bytes.len() == 8 {
            assert(s4[0] == bytes[4]);
            assert(s5[0] == bytes[5]);
            assert(s6[0] == bytes[6]);
            assert(s7[0] == bytes[7]);
        }
    }
}

/// Encodes `v` as its one byte.
pub fn encode_le_1(v: u8) -> (r: [u8; 1])
    ensures
        r@ == le_bytes(v as int, 1),
{
    let r: [u8; 1] = [v];
    proof {
        lemma_le_bytes_unfold(v as int, 1);
        assert(r@ =~= le_bytes(v as int, 1));
    }
    r
}

/// Decodes one byte.
pub fn decode_le_1(b: &[u8; 1]) -> (v: u8)
    ensures
        v == le_value(b@),
{
    proof {
        lemma_le_value_unfold(b@);
    }
    b[0]
}

/// Encodes `v` with the least significant byte first.
pub fn encode_le_2(v: u16) -> (r: [u8; 2])
    ensures
        r@ == le_bytes(v as int, 2),
{
    let v0: u16 = v;
    let d0: u8 = (v0 % 256) as u8;
    let v1: u16 = v0 / 256;
    let d1: u8 = (v1 % 256) as u8;
    let r: [u8; 2] = [d0, d1];
    proof {
        lemma_le_bytes_unfold(v as int, 2);
        assert(r@ =~= le_bytes(v as int, 2));
    }
    r
}

/// Encodes `v` with the most significant byte first.
pub fn encode_be_2(v: u16) -> (r: [u8; 2])
    ensures
        r@ == be_bytes(v as int, 2),
{
    let v0: u16 = v;
    let d0: u8 = (v0 % 256) as u8;
    let v1: u16 = v0 / 256;
    let d1: u8 = (v1 % 256) as u8;
    let r: [u8; 2] = [d1, d0];
    proof {
        lemma_le_bytes_unfold(v as int, 2);
        assert(r@ =~= be_bytes(v as int, 2));
    }
    r
}

/// Decodes 2 bytes with the least significant byte first.
pub fn decode_le_2(b: &[u8; 2]) -> (v: u16)
    ensures
        v == le_value(b@),
{
    proof {
        lemma_le_value_unfold(b@);
    }
    b[0] as u16 + 256 * (b[1] as u16)
}

/// Decodes 2 bytes with the most significant byte first.
pub fn decode_be_2(b: &[u8; 2]) -> (v: u16)
    ensures
        v == be_value(b@),
{
    proof {
        lemma_le_value_unfold(b@.reverse());
    }
    b[1] as u16 + 256 * (b[0] as u16)
}

/// Encodes the three low-order bytes of `v` with the least significant byte first.
pub fn encode_le_3(v: u32) -> (r: [u8; 3])
    ensures
        r@ == le_bytes(v as int, 3),
{
    let v0: u32 = v;
    let d0: u8 = (v0 % 256) as u8;
    let v1: u32 = v0 / 256;
    let d1: u8 = (v1 % 256) as u8;
    let v2: u32 = v1 / 256;
    let d2: u8 = (v2 % 256) as u8;
    let r: [u8; 3] = [d0, d1, d2];
    proof {
        lemma_le_bytes_unfold(v as int, 3);
        assert(r@ =~= le_bytes(v as int, 3));
    }
    r
}

/// Encodes the three low-order bytes of `v` with the most significant byte first.
pub fn encode_be_3(v: u32) -> (r: [u8; 3])
    ensures
        r@ == be_bytes(v as int, 3),
{
    let v0: u32 = v;
    let d0: u8 = (v0 % 256) as u8;
    let v1: u32 = v0 / 256;
    let d1: u8 = (v1 % 256) as u8;
    let v2: u32 = v1 / 256;
    let d2: u8 = (v2 % 256) as u8;
    let r: [u8; 3] = [d2, d1, d0];
    proof {
        lemma_le_bytes_unfold(v as int, 3);
        assert(r@ =~= be_bytes(v as int, 3));
    }
    r
}

/// Decodes 3 bytes with the least significant byte first.
pub fn decode_le_3(b: &[u8; 3]) -> (v: u32)
    ensures
        v == le_value(b@),
{
    proof {
        lemma_le_value_unfold(b@);
    }
    b[0] as u32 + 256 * (b[1] as u32 + 256 * (b[2] as u32))
}

/// Decodes 3 bytes with the most significant byte first.
pub fn decode_be_3(b: &[u8; 3]) -> (v: u32)
    ensures
        v == be_value(b@),
{
    proof {
        lemma_le_value_unfold(b@.reverse());
    }
    b[2] as u32 + 256 * (b[1] as u32 + 256 * (b[0] as u32))
}

/// Encodes `v` with the least significant byte first.
pub fn encode_le_4(v: u32) -> (r: [u8; 4])
    ensures
        r@ == le_bytes(v as int, 4),
{
    let v0: u32 = v;
    let d0: u8 = (v0 % 256) as u8;
    let v1: u32 = v0 / 256;
    let d1: u8 = (v1 % 256) as u8;
    let v2: u32 = v1 / 256;
    let d2: u8 = (v2 % 256) as u8;
    let v3: u32 = v2 / 256;
    let d3: u8 = (v3 % 256) as u8;
    let r: [u8; 4] = [d0, d1, d2, d3];
    proof {
        lemma_le_bytes_unfold(v as int, 4);
        assert(r@ =~= le_bytes(v as int, 4));
    }
    r
}

/// Encodes `v` with the most significant byte first.
pub fn encode_be_4(v: u32) -> (r: [u8; 4])
    ensures
        r@ == be_bytes(v as int, 4),
{
    let v0: u32 = v;
    let d0: u8 = (v0 % 256) as u8;
    let v1: u32 = v0 / 256;
    let d1: u8 = (v1 % 256) as u8;
    let v2: u32 = v1 / 256;
    let d2: u8 = (v2 % 256) as u8;
    let v3: u32 = v2 / 256;
    let d3: u8 = (v3 % 256) as u8;
    let r: [u8; 4] = [d3, d2, d1, d0];
    proof {
        lemma_le_bytes_unfold(v as int, 4);
        assert(r@ =~= be_bytes(v as int, 4));
    }
    r
}

/// Decodes 4 bytes with the least significant byte first.
pub fn decode_le_4(b: &[u8; 4]) -> (v: u32)
    ensures
        v == le_value(b@),
{
    proof {
        lemma_le_value_unfold(b@);
    }
    b[0] as u32 + 256 * (b[1] as u32 + 256 * (b[2] as u32 + 256 * (b[3] as u32)))
}

/// Decodes 4 bytes with the most significant byte first.
pub fn decode_be_4(b: &[u8; 4]) -> (v: u32)
    ensures
        v == be_value(b@),
{
    proof {
        lemma_le_value_unfold(b@.reverse());
    }
    b[3] as u32 + 256 * (b[2] as u32 + 256 * (b[1] as u32 + 256 * (b[0] as u32)))
}

/// Encodes `v` with the least significant byte first.
pub fn encode_le_8(v: u64) -> (r: [u8; 8])
    ensures
        r@ == le_bytes(v as int, 8),
{
    let v0: u64 = v;
    let d0: u8 = (v0 % 256) as u8;
    let v1: u64 = v0 / 256;
    let d1: u8 = (v1 % 256) as u8;
    let v2: u64 = v1 / 256;
    let d2: u8 = (v2 % 256) as u8;
    let v3: u64 = v2 / 256;
    let d3: u8 = (v3 % 256) as u8;
    let v4: u64 = v3 / 256;
    let d4: u8 = (v4 % 256) as u8;
    let v5: u64 = v4 / 256;
    let d5: u8 = (v5 % 256) as u8;
    let v6: u64 = v5 / 256;
    let d6: u8 = (v6 % 256) as u8;
    let v7: u64 = v6 / 256;
    let d7: u8 = (v7 % 256) as u8;
    let r: [u8; 8] = [d0, d1, d2, d3, d4, d5, d6, d7];
    proof {
        lemma_le_bytes_unfold(v as int, 8);
        assert(r@ =~= le_bytes(v as int, 8));
    }
    r
}

/// Encodes `v` with the most significant byte first.
pub fn encode_be_8(v: u64) -> (r: [u8; 8])
    ensures
        r@ == be_bytes(v as int, 8),
{
    let v0: u64 = v;
    let d0: u8 = (v0 % 256) as u8;
    let v1: u64 = v0 / 256;
    let d1: u8 = (v1 % 256) as u8;
    let v2: u64 = v1 / 256;
    let d2: u8 = (v2 % 256) as u8;
    let v3: u64 = v2 / 256;
    let d3: u8 = (v3 % 256) as u8;
    let v4: u64 = v3 / 256;
    let d4: u8 = (v4 % 256) as u8;
    let v5: u64 = v4 / 256;
    let d5: u8 = (v5 % 256) as u8;
    let v6: u64 = v5 / 256;
    let d6: u8 = (v6 % 256) as u8;
    let v7: u64 = v6 / 256;
    let d7: u8 = (v7 % 256) as u8;
    let r: [u8; 8] = [d7, d6, d5, d4, d3, d2, d1, d0];
    proof {
        lemma_le_bytes_unfold(v as int, 8);
        assert(r@ =~= be_bytes(v as int, 8));
    }
    r
}

/// Decodes 8 bytes with the least significant byte first.
pub fn decode_le_8(b: &[u8; 8]) -> (v: u64)
    ensures
        v == le_value(b@),
{
    proof {
        lemma_le_value_unfold(b@);
    }
    b[0] as u64 + 256 * (b[1] as u64 + 256 * (b[2] as u64 + 256 * (b[3] as u64 + 256 * (
        b[4] as u64 + 256 * (b[5] as u64 + 256 * (b[6] as u64 + 256 * (b[7] as u64)))))))
}

/// Decodes 8 bytes with the most significant byte first.
pub fn decode_be_8(b: &[u8; 8]) -> (v: u64)
    ensures
        v == be_value(b@),
{
    proof {
        lemma_le_value_unfold(b@.reverse());
    }
    b[7] as u64 + 256 * (b[6] as u64 + 256 * (b[5] as u64 + 256 * (b[4] as u64 + 256 * (
        b[3] as u64 + 256 * (b[2] as u64 + 256 * (b[1] as u64 + 256 * (b[0] as u64)))))))
}

/// The unsigned numeral of `width` bytes that stands for `v` in two's
/// complement.
pub open spec fn unsigned_of(v: int, width: nat) -> int {
    if v < 0 {
        v + radix_pow(width)
    } else {
        v
    }
}

/// A value and the unsigned numeral that stands for it have the same bytes,
/// and reading the numeral in two's complement gives the value back.
pub proof fn lemma_unsigned_of(v: int, width: nat)
    requires
        fits_signed(v, width),
    ensures
        fits_unsigned(unsigned_of(v, width), width),
        signed(unsigned_of(v, width) as nat, width) == v,
        le_bytes(unsigned_of(v, width), width) == le_bytes(v, width),
        be_bytes(unsigned_of(v, width), width) == be_bytes(v, width),
{
    if v < 0 {
        lemma_le_bytes_wrap(v, width);
    }
}

/// The `u8` that stands for `v` in two's complement.
pub fn unsigned_of_i8(v: i8) -> (u: u8)
    ensures
        u == unsigned_of(v as int, 1),
{
    proof {
        lemma_radix_pow_values();
    }
    if v < 0 {
        (v as i16 + 0x100) as u8
    } else {
        v as u8
    }
}

/// The `i8` that `u` stands for in two's complement.
pub fn signed_of_u8(u: u8) -> (v: i8)
    ensures
        v == signed(u as nat, 1),
{
    proof {
        lemma_radix_pow_values();
    }
    if u > i8::MAX as u8 {
        (u as i16 - 0x100) as i8
    } else {
        u as i8
    }
}

/// The `u16` that stands for `v` in two's complement.
pub fn unsigned_of_i16(v: i16) -> (u: u16)
    ensures
        u == unsigned_of(v as int, 2),
{
    proof {
        lemma_radix_pow_values();
    }
    if v < 0 {
        (v as i32 + 0x1_0000) as u16
    } else {
        v as u16
    }
}

/// The `i16` that `u` stands for in two's complement.
pub fn signed_of_u16(u: u16) -> (v: i16)
    ensures
        v == signed(u as nat, 2),
{
    proof {
        lemma_radix_pow_values();
    }
    if u > i16::MAX as u16 {
        (u as i32 - 0x1_0000) as i16
    } else {
        u as i16
    }
}

/// The `u32` that stands for `v` in two's complement.
pub fn unsigned_of_i32(v: i32) -> (u: u32)
    ensures
        u == unsigned_of(v as int, 4),
{
    proof {
        lemma_radix_pow_values();
    }
    if v < 0 {
        (v as i64 + 0x1_0000_0000) as u32
    } else {
        v as u32
    }
}

/// The `i32` that `u` stands for in two's complement.
pub fn signed_of_u32(u: u32) -> (v: i32)
    ensures
        v == signed(u as nat, 4),
{
    proof {
        lemma_radix_pow_values();
    }
    if u > i32::MAX as u32 {
        (u as i64 - 0x1_0000_0000) as i32
    } else {
        u as i32
    }
}

/// The `u64` that stands for `v` in two's complement.
pub fn unsigned_of_i64(v: i64) -> (u: u64)
    ensures
        u == unsigned_of(v as int, 8),
{
    proof {
        lemma_radix_pow_values();
    }
    if v < 0 {
        (v as i128 + 0x1_0000_0000_0000_0000) as u64
    } else {
        v as u64
    }
}

/// The `i64` that `u` stands for in two's complement.
pub fn signed_of_u64(u: u64) -> (v: i64)
    ensures
        v == signed(u as nat, 8),
{
    proof {
        lemma_radix_pow_values();
    }
    if u > i64::MAX as u64 {
        (u as i128 - 0x1_0000_0000_0000_0000) as i64
    } else {
        u as i64
    }
}

/// The three-byte numeral that stands for the 24-bit value `v` in two's
/// complement.
pub fn unsigned_of_i24(v: i32) -> (u: u32)
    requires
        fits_signed(v as int, 3),
    ensures
        u == unsigned_of(v as int, 3),
        fits_unsigned(u as int, 3),
{
    proof {
        lemma_radix_pow_values();
    }
    if v < 0 {
        (v + 0x100_0000) as u32
    } else {
        v as u32
    }
}

/// The 24-bit value that the three-byte numeral `u` stands for in two's
/// complement.
pub fn signed_of_u24(u: u32) -> (v: i32)
    requires
        fits_unsigned(u as int, 3),
    ensures
        v == signed(u as nat, 3),
        fits_signed(v as int, 3),
{
    proof {
        lemma_radix_pow_values();
    }
    if u > 0x7f_ffff {
        u as i32 - 0x100_0000
    } else {
        u as i32
    }
}

/// `region` with the bytes from `at` on replaced by `part`.
pub open spec fn overwrite(region: Seq<u8>, at: int, part: Seq<u8>) -> Seq<u8> {
    Seq::new(
        region.len(),
        |i: int|
            if at <= i < at + part.len() {
                part[i - at]
            } else {
                region[i]
            },
    )
}

/// Copies the 1 byte that start at `at` out of `bytes`.
pub fn load_1(bytes: &[u8], at: usize) -> (raw: [u8; 1])
    requires
        at + 1 <= bytes@.len(),
    ensures
        raw@ == bytes@.subrange(at as int, at + 1),
{
    let raw: [u8; 1] = [bytes[at]];
    assert(raw@ =~= bytes@.subrange(at as int, at + 1));
    raw
}

/// Copies `raw` into `bytes`, starting at `at`.
pub fn store_1(bytes: &mut [u8], at: usize, raw: &[u8; 1])
    requires
        at + 1 <= old(bytes)@.len(),
    ensures
        final(bytes)@ == overwrite(old(bytes)@, at as int, raw@),
{
    bytes[at] = raw[0];
    assert(bytes@ =~= overwrite(old(bytes)@, at as int, raw@));
}

/// Copies the 2 bytes that start at `at` out of `bytes`.
pub fn load_2(bytes: &[u8], at: usize) -> (raw: [u8; 2])
    requires
        at + 2 <= bytes@.len(),
    ensures
        raw@ == bytes@.subrange(at as int, at + 2),
{
    let raw: [u8; 2] = [bytes[at], bytes[at + 1]];
    assert(raw@ =~= bytes@.subrange(at as int, at + 2));
    raw
}

/// Copies `raw` into `bytes`, starting at `at`.
pub fn store_2(bytes: &mut [u8], at: usize, raw: &[u8; 2])
    requires
        at + 2 <= old(bytes)@.len(),
    ensures
        final(bytes)@ == overwrite(old(bytes)@, at as int, raw@),
{
    bytes[at] = raw[0];
    bytes[at + 1] = raw[1];
    assert(bytes@ =~= overwrite(old(bytes)@, at as int, raw@));
}

/// Copies the 3 bytes that start at `at` out of `bytes`.
pub fn load_3(bytes: &[u8], at: usize) -> (raw: [u8; 3])
    requires
        at + 3 <= bytes@.len(),
    ensures
        raw@ == bytes@.subrange(at as int, at + 3),
{
    let raw: [u8; 3] = [bytes[at], bytes[at + 1], bytes[at + 2]];
    assert(raw@ =~= bytes@.subrange(at as int, at + 3));
    raw
}

/// Copies `raw` into `bytes`, starting at `at`.
pub fn store_3(bytes: &mut [u8], at: usize, raw: &[u8; 3])
    requires
        at + 3 <= old(bytes)@.len(),
    ensures
        final(bytes)@ == overwrite(old(bytes)@, at as int, raw@),
{
    bytes[at] = raw[0];
    bytes[at + 1] = raw[1];
    bytes[at + 2] = raw[2];
    assert(bytes@ =~= overwrite(old(bytes)@, at as int, raw@));
}

/// Copies the 4 bytes that start at `at` out of `bytes`.
pub fn load_4(bytes: &[u8], at: usize) -> (raw: [u8; 4])
    requires
        at + 4 <= bytes@.len(),
    ensures
        raw@ == bytes@.subrange(at as int, at + 4),
{
    let raw: [u8; 4] = [bytes[at], bytes[at + 1], bytes[at + 2], bytes[at + 3]];
    assert(raw@ =~= bytes@.subrange(at as int, at + 4));
    raw
}

/// Copies `raw` into `bytes`, starting at `at`.
pub fn store_4(bytes: &mut [u8], at: usize, raw: &[u8; 4])
    requires
        at + 4 <= old(bytes)@.len(),
    ensures
        final(bytes)@ == overwrite(old(bytes)@, at as int, raw@),
{
    bytes[at] = raw[0];
    bytes[at + 1] = raw[1];
    bytes[at + 2] = raw[2];
    bytes[at + 3] = raw[3];
    assert(bytes@ =~= overwrite(old(bytes)@, at as int, raw@));
}

/// Copies the 8 bytes that start at `at` out of `bytes`.
pub fn load_8(bytes: &[u8], at: usize) -> (raw: [u8; 8])
    requires
        at + 8 <= bytes@.len(),
    ensures
        raw@ == bytes@.subrange(at as int, at + 8),
{
    let raw: [u8; 8] = [
        bytes[at],
        bytes[at + 1],
        bytes[at + 2],
        bytes[at + 3],
        bytes[at + 4],
        bytes[at + 5],
        bytes[at + 6],
        bytes[at + 7],
    ];
    assert(raw@ =~= bytes@.subrange(at as int, at + 8));
    raw
}

/// Copies `raw` into `bytes`, starting at `at`.
pub fn store_8(bytes: &mut [u8], at: usize, raw: &[u8; 8])
    requires
        at + 8 <= old(bytes)@.len(),
    ensures
        final(bytes)@ == overwrite(old(bytes)@, at as int, raw@),
{
    bytes[at] = raw[0];
    bytes[at + 1] = raw[1];
    bytes[at + 2] = raw[2];
    bytes[at + 3] = raw[3];
    bytes[at + 4] = raw[4];
    bytes[at + 5] = raw[5];
    bytes[at + 6] = raw[6];
    bytes[at + 7] = raw[7];
    assert(bytes@ =~= overwrite(old(bytes)@, at as int, raw@));
}

} // verus!

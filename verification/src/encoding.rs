//! Scalar value encodings: fixed-width big-endian bytes and decimal text.

use vstd::prelude::*;

verus! {

/// 256^width.
pub open spec fn pow256(width: nat) -> nat
    decreases width,
{
    if width == 0 {
        1
    } else {
        256 * pow256((width - 1) as nat)
    }
}

/// 10^d.
pub open spec fn pow10(d: nat) -> nat
    decreases d,
{
    if d == 0 {
        1
    } else {
        10 * pow10((d - 1) as nat)
    }
}

/// The `width` low-order base-256 digits of `v`, most significant first:
/// the big-endian fixed-width byte representation of `v`.
pub open spec fn be_seq(v: nat, width: nat) -> Seq<u8>
    decreases width,
{
    if width == 0 {
        Seq::empty()
    } else {
        be_seq(v / 256, (width - 1) as nat).push((v % 256) as u8)
    }
}

/// The value of a big-endian byte sequence.
pub open spec fn be_val(s: Seq<u8>) -> nat
    decreases s.len(),
{
    if s.len() == 0 {
        0
    } else {
        be_val(s.drop_last()) * 256 + s.last() as nat
    }
}

/// Two's-complement reading of an `i16` as an unsigned value.
pub open spec fn u16_of_i16(v: i16) -> u16 {
    if v >= 0 {
        v as u16
    } else {
        (v + 0x10000) as u16
    }
}

/// Two's-complement reading of an `i32` as an unsigned value.
pub open spec fn u32_of_i32(v: i32) -> u32 {
    if v >= 0 {
        v as u32
    } else {
        (v + 0x1_0000_0000) as u32
    }
}

/// Two's-complement reading of an `i64` as an unsigned value.
pub open spec fn u64_of_i64(v: i64) -> u64 {
    if v >= 0 {
        v as u64
    } else {
        (v + 0x1_0000_0000_0000_0000) as u64
    }
}

/// Inverse of [`u64_of_i64`].
pub open spec fn i64_of_u64(u: u64) -> i64 {
    if u < 0x8000_0000_0000_0000 {
        u as i64
    } else {
        (u - 0x1_0000_0000_0000_0000) as i64
    }
}

/// Big-endian two's-complement bytes of an `i16` (2 bytes).
pub open spec fn i16_be(v: i16) -> Seq<u8> {
    be_seq(u16_of_i16(v) as nat, 2)
}

/// Big-endian two's-complement bytes of an `i32` (4 bytes).
pub open spec fn i32_be(v: i32) -> Seq<u8> {
    be_seq(u32_of_i32(v) as nat, 4)
}

/// Big-endian two's-complement bytes of an `i64` (8 bytes).
pub open spec fn i64_be(v: i64) -> Seq<u8> {
    be_seq(u64_of_i64(v) as nat, 8)
}

/// ASCII decimal digits of `n`, no leading zeros (a single `0` for zero).
pub open spec fn dec_digits(n: nat) -> Seq<u8>
    decreases n,
{
    if n < 10 {
        seq![(48 + n) as u8]
    } else {
        dec_digits(n / 10).push((48 + n % 10) as u8)
    }
}

/// ASCII decimal rendering of a signed integer, `-` before the magnitude.
pub open spec fn dec_int(v: int) -> Seq<u8> {
    if v < 0 {
        seq![45u8] + dec_digits((-v) as nat)
    } else {
        dec_digits(v as nat)
    }
}

/// Builds the `width`-byte big-endian representation of `v`.
pub fn be_bytes(v: u64, width: usize) -> (r: Vec<u8>)
    ensures
        r@ == be_seq(v as nat, width as nat),
        r@.len() == width,
    decreases width,
{
    if width == 0 {
        Vec::new()
    } else {
        let mut r = be_bytes(v / 256, width - 1);
        r.push((v % 256) as u8);
        r
    }
}

/// Two's-complement conversion, exec counterpart of [`u16_of_i16`].
pub fn u16_from_i16(v: i16) -> (r: u16)
    ensures
        r == u16_of_i16(v),
{
    if v >= 0 {
        v as u16
    } else {
        ((v as i32) + 0x10000) as u16
    }
}

/// Two's-complement conversion, exec counterpart of [`u32_of_i32`].
pub fn u32_from_i32(v: i32) -> (r: u32)
    ensures
        r == u32_of_i32(v),
{
    if v >= 0 {
        v as u32
    } else {
        ((v as i64) + 0x1_0000_0000) as u32
    }
}

/// Two's-complement conversion, exec counterpart of [`u64_of_i64`].
pub fn u64_from_i64(v: i64) -> (r: u64)
    ensures
        r == u64_of_i64(v),
{
    if v >= 0 {
        v as u64
    } else {
        ((v as i128) + 0x1_0000_0000_0000_0000) as u64
    }
}

/// Inverse two's-complement conversion, exec counterpart of [`i64_of_u64`].
pub fn i64_from_u64(u: u64) -> (r: i64)
    ensures
        r == i64_of_u64(u),
{
    if u < 0x8000_0000_0000_0000 {
        u as i64
    } else {
        ((u as i128) - 0x1_0000_0000_0000_0000) as i64
    }
}

/// Big-endian bytes of an `i16`.
pub fn i16_be_vec(v: i16) -> (r: Vec<u8>)
    ensures
        r@ == i16_be(v),
        r@.len() == 2,
{
    be_bytes(u16_from_i16(v) as u64, 2)
}

/// Big-endian bytes of an `i32`.
pub fn i32_be_vec(v: i32) -> (r: Vec<u8>)
    ensures
        r@ == i32_be(v),
        r@.len() == 4,
{
    be_bytes(u32_from_i32(v) as u64, 4)
}

/// Big-endian bytes of an `i64`.
pub fn i64_be_vec(v: i64) -> (r: Vec<u8>)
    ensures
        r@ == i64_be(v),
        r@.len() == 8,
{
    be_bytes(u64_from_i64(v), 8)
}

/// Reads a big-endian byte sequence back into its unsigned value.
pub fn be_to_u64(b: &[u8]) -> (r: u64)
    requires
        b@.len() <= 8,
    ensures
        r as nat == be_val(b@),
{
    let n = b.len();
    let mut r: u64 = 0;
    let mut i: usize = 0;
    proof {
        assert(b@.take(0) =~= Seq::<u8>::empty());
    }
    while i < n
        invariant
            0 <= i <= n <= 8,
            n == b@.len(),
            r as nat == be_val(b@.take(i as int)),
            (r as nat) < pow256(i as nat),
        decreases n - i,
    {
        proof {
            assert(b@.take(i + 1).drop_last() =~= b@.take(i as int));
            assert(b@.take(i + 1).last() == b@[i as int]);
            assert(pow256((i + 1) as nat) == 256 * pow256(i as nat));
            assert(r * 256 + 255 < 256 * pow256(i as nat)) by (nonlinear_arith)
                requires
                    (r as nat) < pow256(i as nat),
            ;
            lemma_pow256_le((i + 1) as nat, 8);
            assert(pow256(8) == 0x1_0000_0000_0000_0000) by {
                reveal_with_fuel(pow256, 9);
            }
        }
        r = r * 256 + (b[i] as u64);
        i = i + 1;
    }
    proof {
        assert(b@.take(n as int) =~= b@);
    }
    r
}

/// 256^a <= 256^b when a <= b.
pub proof fn lemma_pow256_le(a: nat, b: nat)
    requires
        a <= b,
    ensures
        pow256(a) <= pow256(b),
    decreases b,
{
    if a < b {
        lemma_pow256_le(a, (b - 1) as nat);
    }
}

/// A fixed-width big-endian encoding has the stated width.
pub proof fn lemma_be_seq_len(v: nat, width: nat)
    ensures
        be_seq(v, width).len() == width,
    decreases width,
{
    if width > 0 {
        lemma_be_seq_len(v / 256, (width - 1) as nat);
    }
}

/// Round trip: reading back the `width`-byte big-endian encoding of a value
/// below 256^width recovers that value.
pub proof fn lemma_be_round_trip(v: nat, width: nat)
    requires
        v < pow256(width),
    ensures
        be_val(be_seq(v, width)) == v,
    decreases width,
{
    if width == 0 {
    } else {
        assert(v / 256 < pow256((width - 1) as nat)) by (nonlinear_arith)
            requires
                v < 256 * pow256((width - 1) as nat),
        ;
        lemma_be_round_trip(v / 256, (width - 1) as nat);
        lemma_be_seq_len(v / 256, (width - 1) as nat);
        let s = be_seq(v, width);
        assert(s.drop_last() =~= be_seq(v / 256, (width - 1) as nat));
        assert(v / 256 * 256 + v % 256 == v) by {
            vstd::arithmetic::div_mod::lemma_fundamental_div_mod(v as int, 256);
        }
    }
}

/// Round trip for signed 64-bit values: decoding the 8 big-endian bytes as an
/// unsigned value and undoing the two's complement recovers the value.
pub proof fn lemma_i64_be_round_trip(v: i64)
    ensures
        be_val(i64_be(v)) == u64_of_i64(v),
        i64_of_u64((be_val(i64_be(v))) as u64) == v,
{
    assert(pow256(8) == 0x1_0000_0000_0000_0000) by {
        reveal_with_fuel(pow256, 9);
    }
    lemma_be_round_trip(u64_of_i64(v) as nat, 8);
}

/// Round trip for signed 32-bit values.
pub proof fn lemma_i32_be_round_trip(v: i32)
    ensures
        be_val(i32_be(v)) == u32_of_i32(v),
{
    assert(pow256(4) == 0x1_0000_0000) by {
        reveal_with_fuel(pow256, 5);
    }
    lemma_be_round_trip(u32_of_i32(v) as nat, 4);
}

/// Round trip for signed 16-bit values.
pub proof fn lemma_i16_be_round_trip(v: i16)
    ensures
        be_val(i16_be(v)) == u16_of_i16(v),
{
    assert(pow256(2) == 0x10000) by {
        reveal_with_fuel(pow256, 3);
    }
    lemma_be_round_trip(u16_of_i16(v) as nat, 2);
}

/// A decimal rendering of a value below 10^d has at most d digits (d >= 1).
pub proof fn lemma_dec_digits_len(n: nat, d: nat)
    requires
        d >= 1,
        n < pow10(d),
    ensures
        dec_digits(n).len() <= d,
    decreases d,
{
    if n < 10 {
    } else {
        assert(pow10(1) == 10) by {
            reveal_with_fuel(pow10, 2);
        }
        if d == 1 {
            lemma_pow10_le(1, d);
        }
        assert(n / 10 < pow10((d - 1) as nat)) by (nonlinear_arith)
            requires
                n < 10 * pow10((d - 1) as nat),
        ;
        lemma_dec_digits_len(n / 10, (d - 1) as nat);
    }
}

/// 10^a <= 10^b when a <= b.
pub proof fn lemma_pow10_le(a: nat, b: nat)
    requires
        a <= b,
    ensures
        pow10(a) <= pow10(b),
    decreases b,
{
    if a < b {
        lemma_pow10_le(a, (b - 1) as nat);
    }
}

/// The decimal text of any `i64` is at most 20 bytes (19 digits and a sign).
pub proof fn lemma_dec_int_i64_len(v: i64)
    ensures
        dec_int(v as int).len() <= 20,
{
    assert(pow10(19) == 10_000_000_000_000_000_000) by {
        reveal_with_fuel(pow10, 20);
    }
    if v < 0 {
        lemma_dec_digits_len((-(v as int)) as nat, 19);
    } else {
        lemma_dec_digits_len(v as nat, 19);
    }
}

/// Builds the decimal digits of `n`.
fn dec_u64(n: u64) -> (r: Vec<u8>)
    ensures
        r@ == dec_digits(n as nat),
    decreases n,
{
    if n < 10 {
        let mut r = Vec::new();
        r.push(48 + n as u8);
        assert(r@ =~= dec_digits(n as nat));
        r
    } else {
        let mut r = dec_u64(n / 10);
        r.push(48 + (n % 10) as u8);
        r
    }
}

/// ASCII decimal rendering of an `i64`, exec counterpart of [`dec_int`].
pub fn i64_text(v: i64) -> (r: Vec<u8>)
    ensures
        r@ == dec_int(v as int),
{
    if v >= 0 {
        dec_u64(v as u64)
    } else {
        let mag = (-(v as i128)) as u64;
        let mut r: Vec<u8> = Vec::new();
        r.push(45);
        let d = dec_u64(mag);
        r.extend_from_slice(d.as_slice());
        proof {
            assert(r@ =~= seq![45u8] + dec_digits(mag as nat));
        }
        r
    }
}

} // verus!

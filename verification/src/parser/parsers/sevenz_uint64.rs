//! The packed integer of the format.
//!
//! The first byte opens with as many one-bits as bytes follow it. Those
//! bytes are the low part of the value, little-endian; the bits of the first
//! byte below its leading ones are the high part.

use crate::parser::err::{
    decodes, fail_at, leaves_end, lemma_leaves_end_of_end, Decoded, SevenZConversionError,
    SevenZParserError, SevenZParserErrorKind, SevenZResult,
};
use crate::parser::parsers::bytes::{
    byte, le_bytes, le_uint, le_value, lemma_fields_leave_end, lemma_le_bytes,
    lemma_le_value_bound,
    lemma_pow256_values, pow256, spec_byte, spec_take, take,
};
use vstd::prelude::*;

verus! {

/// The number of one-bits at the top of `b`, above its first zero bit.
pub open spec fn leading_ones(b: u8) -> nat {
    if b & 0x80 == 0 {
        0
    } else if b & 0x40 == 0 {
        1
    } else if b & 0x20 == 0 {
        2
    } else if b & 0x10 == 0 {
        3
    } else if b & 0x08 == 0 {
        4
    } else if b & 0x04 == 0 {
        5
    } else if b & 0x02 == 0 {
        6
    } else if b & 0x01 == 0 {
        7
    } else {
        8
    }
}

/// The mask `(1 << (8 - k)) - 1` of the bits of a first byte that belong to
/// the value when `k` bytes follow; zero when all eight do.
pub open spec fn low_mask(k: nat) -> u8 {
    if k == 0 {
        0xff
    } else if k == 1 {
        0x7f
    } else if k == 2 {
        0x3f
    } else if k == 3 {
        0x1f
    } else if k == 4 {
        0x0f
    } else if k == 5 {
        0x07
    } else if k == 6 {
        0x03
    } else if k == 7 {
        0x01
    } else {
        0
    }
}

/// The value of a packed integer with first byte `first` and the bytes
/// `extra` behind it.
pub open spec fn varint_value(first: u8, extra: Seq<u8>) -> nat {
    le_value(extra) + (first & low_mask(extra.len())) as nat * pow256(extra.len())
}

/// A packed integer: the first byte, as many bytes as it has leading
/// one-bits, and the value that the two spell.
pub open spec fn spec_sevenz_uint64(s: Seq<u8>) -> Decoded<u64> {
    match spec_byte(s) {
        Err(e) => Err(e),
        Ok((rest, first)) => match spec_take(rest, leading_ones(first)) {
            Err(e) => Err(e),
            Ok((rest, extra)) => Ok((rest, varint_value(first, extra) as u64)),
        },
    }
}

/// A packed integer that is used as a count or a length.
pub open spec fn spec_sevenz_uint64_as_usize(s: Seq<u8>) -> Decoded<usize> {
    match spec_sevenz_uint64(s) {
        Err(e) => Err(e),
        Ok((rest, v)) => if v <= usize::MAX {
            Ok((rest, v as usize))
        } else {
            Err(
                fail_at(
                    SevenZParserErrorKind::ConversionFailure(SevenZConversionError::ToUsize),
                    s,
                ),
            )
        },
    }
}

/// A packed integer leaves an end of its input.
pub proof fn lemma_sevenz_uint64_leaves_end(s: Seq<u8>)
    ensures
        leaves_end(spec_sevenz_uint64(s), s),
        leaves_end(spec_sevenz_uint64_as_usize(s), s),
{
    lemma_fields_leave_end(s, 1);
    if let Ok((rest, first)) = spec_byte(s) {
        lemma_fields_leave_end(rest, leading_ones(first));
        lemma_leaves_end_of_end(spec_take(rest, leading_ones(first)), rest, s);
    }
}

/// Every packed integer fits in 64 bits.
pub proof fn lemma_varint_value_bound(first: u8, extra: Seq<u8>)
    requires
        extra.len() <= 8,
    ensures
        varint_value(first, extra) <= u64::MAX,
        (first & low_mask(extra.len())) as nat * pow256(extra.len()) <= u64::MAX,
{
    let k = extra.len();
    let m = low_mask(k);
    let h = first & m;
    lemma_le_value_bound(extra);
    lemma_pow256_values();
    assert(h <= m) by (bit_vector)
        requires
            h == first & m,
    ;
    assert(h as nat * pow256(k) <= m as nat * pow256(k)) by (nonlinear_arith)
        requires
            h <= m,
    ;
}

fn count_leading_ones(b: u8) -> (k: usize)
    ensures
        k == leading_ones(b),
        k <= 8,
{
    if b & 0x80 == 0 {
        0
    } else if b & 0x40 == 0 {
        1
    } else if b & 0x20 == 0 {
        2
    } else if b & 0x10 == 0 {
        3
    } else if b & 0x08 == 0 {
        4
    } else if b & 0x04 == 0 {
        5
    } else if b & 0x02 == 0 {
        6
    } else if b & 0x01 == 0 {
        7
    } else {
        8
    }
}

/// A product with a power of 256 whose value is known.
proof fn lemma_known_weight(x: nat, p: nat, c: nat)
    requires
        p == c,
    ensures
        x * p == x * c,
{
}

/// The part of the value that the first byte holds, at its weight.
fn high_part(first: u8, k: usize) -> (v: u64)
    requires
        k <= 8,
    ensures
        v == (first & low_mask(k as nat)) as nat * pow256(k as nat),
{
    proof {
        let mask = low_mask(k as nat);
        let high = first & mask;
        assert(high <= mask) by (bit_vector)
            requires
                high == first & mask,
        ;
        lemma_pow256_values();
        let h = high as nat;
        if k == 0 {
            lemma_known_weight(h, pow256(0), 1);
        } else if k == 1 {
            lemma_known_weight(h, pow256(1), 0x100);
        } else if k == 2 {
            lemma_known_weight(h, pow256(2), 0x1_0000);
        } else if k == 3 {
            lemma_known_weight(h, pow256(3), 0x100_0000);
        } else if k == 4 {
            lemma_known_weight(h, pow256(4), 0x1_0000_0000);
        } else if k == 5 {
            lemma_known_weight(h, pow256(5), 0x100_0000_0000);
        } else if k == 6 {
            lemma_known_weight(h, pow256(6), 0x1_0000_0000_0000);
        } else if k == 7 {
            lemma_known_weight(h, pow256(7), 0x100_0000_0000_0000);
        } else {
            assert(0 * pow256(8) == 0);
        }
    }
    match k {
        0 => (first & 0xff) as u64,
        1 => (first & 0x7f) as u64 * 0x100,
        2 => (first & 0x3f) as u64 * 0x1_0000,
        3 => (first & 0x1f) as u64 * 0x100_0000,
        4 => (first & 0x0f) as u64 * 0x1_0000_0000,
        5 => (first & 0x07) as u64 * 0x100_0000_0000,
        6 => (first & 0x03) as u64 * 0x1_0000_0000_0000,
        7 => (first & 0x01) as u64 * 0x100_0000_0000_0000,
        _ => 0,
    }
}

/// Decodes one packed integer.
pub fn sevenz_uint64(input: &[u8]) -> (r: SevenZResult<u64>)
    ensures
        decodes(r, spec_sevenz_uint64(input@)),
{
    let (rest, first) = byte(input)?;
    let k = count_leading_ones(first);
    let (rest, extra) = take(rest, k)?;
    proof {
        lemma_varint_value_bound(first, extra@);
    }
    let low = le_uint(extra);
    let high = high_part(first, k);
    Ok((rest, low + high))
}

/// Decodes one packed integer and converts it to `usize`.
pub fn sevenz_uint64_as_usize(input: &[u8]) -> (r: SevenZResult<usize>)
    ensures
        decodes(r, spec_sevenz_uint64_as_usize(input@)),
{
    let (rest, v) = sevenz_uint64(input)?;
    if v > usize::MAX as u64 {
        return Err(
            SevenZParserError::new(
                SevenZParserErrorKind::ConversionFailure(SevenZConversionError::ToUsize),
                input.len(),
            ),
        );
    }
    Ok((rest, v as usize))
}

/// How many bytes follow the first in the shortest encoding of `v`: with
/// `k` of them the value has `7k + 7` bits, and with eight it has 64.
pub open spec fn varint_extra_len(v: u64) -> nat {
    if v < 0x80 {
        0
    } else if v < 0x4000 {
        1
    } else if v < 0x20_0000 {
        2
    } else if v < 0x1000_0000 {
        3
    } else if v < 0x8_0000_0000 {
        4
    } else if v < 0x400_0000_0000 {
        5
    } else if v < 0x2_0000_0000_0000 {
        6
    } else if v < 0x100_0000_0000_0000 {
        7
    } else {
        8
    }
}

/// The byte made of `k` one-bits followed by zeros.
pub open spec fn lead_marker(k: nat) -> u8 {
    if k == 0 {
        0x00
    } else if k == 1 {
        0x80
    } else if k == 2 {
        0xc0
    } else if k == 3 {
        0xe0
    } else if k == 4 {
        0xf0
    } else if k == 5 {
        0xf8
    } else if k == 6 {
        0xfc
    } else if k == 7 {
        0xfe
    } else {
        0xff
    }
}

/// The first byte of the encoding of `v`: the marker, and below it what of
/// `v` lies above the bytes that follow.
pub open spec fn varint_first_byte(v: u64) -> u8 {
    let k = varint_extra_len(v);
    if k < 8 {
        (lead_marker(k) + v as nat / pow256(k)) as u8
    } else {
        0xff
    }
}

/// The shortest encoding of `v` as a packed integer.
pub open spec fn spec_encode_sevenz_uint64(v: u64) -> Seq<u8> {
    seq![varint_first_byte(v)] + le_bytes(v as nat, varint_extra_len(v))
}

proof fn lemma_first_byte(k: nat, h: u8, f: u8)
    requires
        k <= 8,
        f == lead_marker(k) + h,
        h <= low_mask(k) / 2,
    ensures
        leading_ones(f) == k,
        f & low_mask(k) == h,
{
    if k == 0 {
        assert(f & 0x80 == 0 && f & 0xff == h) by (bit_vector)
            requires
                f == 0x00u8 + h,
                h <= 0x7f,
        ;
    } else if k == 1 {
        assert(f & 0x80 != 0 && f & 0x40 == 0 && f & 0x7f == h) by (bit_vector)
            requires
                f == 0x80u8 + h,
                h <= 0x3f,
        ;
    } else if k == 2 {
        assert(f & 0x80 != 0 && f & 0x40 != 0 && f & 0x20 == 0 && f & 0x3f == h) by (bit_vector)
            requires
                f == 0xc0u8 + h,
                h <= 0x1f,
        ;
    } else if k == 3 {
        assert(f & 0x80 != 0 && f & 0x40 != 0 && f & 0x20 != 0 && f & 0x10 == 0 && f & 0x1f == h)
            by (bit_vector)
            requires
                f == 0xe0u8 + h,
                h <= 0x0f,
        ;
    } else if k == 4 {
        assert(f & 0x80 != 0 && f & 0x40 != 0 && f & 0x20 != 0 && f & 0x10 != 0 && f & 0x08 == 0
            && f & 0x0f == h) by (bit_vector)
            requires
                f == 0xf0u8 + h,
                h <= 0x07,
        ;
    } else if k == 5 {
        assert(f & 0x80 != 0 && f & 0x40 != 0 && f & 0x20 != 0 && f & 0x10 != 0 && f & 0x08 != 0
            && f & 0x04 == 0 && f & 0x07 == h) by (bit_vector)
            requires
                f == 0xf8u8 + h,
                h <= 0x03,
        ;
    } else if k == 6 {
        assert(f & 0x80 != 0 && f & 0x40 != 0 && f & 0x20 != 0 && f & 0x10 != 0 && f & 0x08 != 0
            && f & 0x04 != 0 && f & 0x02 == 0 && f & 0x03 == h) by (bit_vector)
            requires
                f == 0xfcu8 + h,
                h <= 0x01,
        ;
    } else if k == 7 {
        assert(f & 0x80 != 0 && f & 0x40 != 0 && f & 0x20 != 0 && f & 0x10 != 0 && f & 0x08 != 0
            && f & 0x04 != 0 && f & 0x02 != 0 && f & 0x01 == 0 && f & 0x01 == h) by (bit_vector)
            requires
                f == 0xfeu8 + h,
                h <= 0x00,
        ;
    } else {
        assert(f & 0x80 != 0 && f & 0x40 != 0 && f & 0x20 != 0 && f & 0x10 != 0 && f & 0x08 != 0
            && f & 0x04 != 0 && f & 0x02 != 0 && f & 0x01 != 0 && f & 0 == h) by (bit_vector)
            requires
                f == 0xffu8 + h,
                h <= 0x00,
        ;
    }
}

/// A number below `c * (hmax + 1)` splits into a quotient by `c` of at most
/// `hmax` and a remainder; `p` is `c` under another name.
proof fn lemma_split(x: nat, p: nat, c: nat, hmax: nat, bound: nat)
    requires
        p == c,
        c > 0,
        bound == c * (hmax + 1),
        x < bound,
    ensures
        x / p <= hmax,
        x % p + (x / p) * p == x,
{
    let q = x / c;
    let r = x % c;
    vstd::arithmetic::div_mod::lemma_fundamental_div_mod(x as int, c as int);
    vstd::arithmetic::div_mod::lemma_mod_pos_bound(x as int, c as int);
    assert(q * c == c * q) by (nonlinear_arith);
    if q > hmax {
        assert(c * q >= c * (hmax + 1)) by (nonlinear_arith)
            requires
                q >= hmax + 1,
                c > 0,
        ;
    }
}

/// Decoding undoes encoding: on the encoding of `v`, followed by anything,
/// the decoder yields `v` and leaves exactly what followed.
pub proof fn lemma_sevenz_uint64_round_trip(v: u64, tail: Seq<u8>)
    ensures
        spec_sevenz_uint64(spec_encode_sevenz_uint64(v) + tail) == Ok::<
            (Seq<u8>, u64),
            SevenZParserError,
        >((tail, v)),
        spec_encode_sevenz_uint64(v).len() == 1 + varint_extra_len(v),
{
    let k = varint_extra_len(v);
    let p = pow256(k);
    let f = varint_first_byte(v);
    let digits = le_bytes(v as nat, k);
    let s = spec_encode_sevenz_uint64(v) + tail;
    let x = v as nat;
    lemma_pow256_values();
    lemma_le_bytes(x, k);
    if k == 0 {
        lemma_split(x, p, 1, 0x7f, 0x80);
    } else if k == 1 {
        lemma_split(x, p, 0x100, 0x3f, 0x4000);
    } else if k == 2 {
        lemma_split(x, p, 0x1_0000, 0x1f, 0x20_0000);
    } else if k == 3 {
        lemma_split(x, p, 0x100_0000, 0x0f, 0x1000_0000);
    } else if k == 4 {
        lemma_split(x, p, 0x1_0000_0000, 0x07, 0x8_0000_0000);
    } else if k == 5 {
        lemma_split(x, p, 0x100_0000_0000, 0x03, 0x400_0000_0000);
    } else if k == 6 {
        lemma_split(x, p, 0x1_0000_0000_0000, 0x01, 0x2_0000_0000_0000);
    } else if k == 7 {
        lemma_split(x, p, 0x100_0000_0000_0000, 0x00, 0x100_0000_0000_0000);
    } else {
        lemma_split(x, p, 0x1_0000_0000_0000_0000, 0x00, 0x1_0000_0000_0000_0000);
    }
    let h: nat = x / p;
    assert(h <= low_mask(k) / 2);
    assert(f == lead_marker(k) + h);
    lemma_first_byte(k, h as u8, f);
    assert(s[0] == f);
    assert(s.skip(1) =~= digits + tail);
    assert((digits + tail).skip(k as int) =~= tail);
    assert((digits + tail).take(k as int) =~= digits);
    assert(le_value(digits) == x % p);
    assert((f & low_mask(k)) as nat == h);
}

/// Encodes `v` as a packed integer, in the fewest bytes.
pub fn encode_sevenz_uint64(v: u64) -> (out: Vec<u8>)
    ensures
        out@ == spec_encode_sevenz_uint64(v),
{
    let (k, marker, weight): (usize, u8, u64) = if v < 0x80 {
        (0, 0x00, 1)
    } else if v < 0x4000 {
        (1, 0x80, 0x100)
    } else if v < 0x20_0000 {
        (2, 0xc0, 0x1_0000)
    } else if v < 0x1000_0000 {
        (3, 0xe0, 0x100_0000)
    } else if v < 0x8_0000_0000 {
        (4, 0xf0, 0x1_0000_0000)
    } else if v < 0x400_0000_0000 {
        (5, 0xf8, 0x100_0000_0000)
    } else if v < 0x2_0000_0000_0000 {
        (6, 0xfc, 0x1_0000_0000_0000)
    } else if v < 0x100_0000_0000_0000 {
        (7, 0xfe, 0x100_0000_0000_0000)
    } else {
        (8, 0xff, 1)
    };
    proof {
        lemma_pow256_values();
    }
    let first: u8 = if k < 8 {
        marker + (v / weight) as u8
    } else {
        marker
    };
    let mut out: Vec<u8> = Vec::new();
    out.push(first);
    let mut x: u64 = v;
    let mut i: usize = 0;
    while i < k
        invariant
            i <= k,
            out@ + le_bytes(x as nat, (k - i) as nat) == spec_encode_sevenz_uint64(v),
        decreases k - i,
    {
        proof {
            assert(out@.push((x % 256) as u8) + le_bytes((x / 256) as nat, (k - i - 1) as nat)
                =~= out@ + le_bytes(x as nat, (k - i) as nat));
        }
        out.push((x % 256) as u8);
        x = x / 256;
        i = i + 1;
    }
    proof {
        assert(out@ + le_bytes(x as nat, 0) =~= out@);
    }
    out
}

} // verus!

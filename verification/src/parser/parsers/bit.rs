//! Bit vectors whose length need not be a multiple of eight.
//!
//! The bits of each byte are taken from the most significant down. Of the
//! last byte only as many are taken as the length asks for; the others are
//! skipped with it.

use crate::parser::bits::{max_bits, Bits};
use crate::parser::err::{
    decodes, fail_at, leaves_end, Decoded, SevenZConversionError, SevenZParserError,
    SevenZParserErrorKind, SevenZResult,
};
use crate::parser::parsers::bytes::{lemma_fields_leave_end, spec_take, take};
use vstd::prelude::*;

verus! {

/// The byte in which only bit `k`, counted from the most significant, is set.
pub open spec fn bit_mask(k: int) -> u8 {
    if k == 0 {
        0x80
    } else if k == 1 {
        0x40
    } else if k == 2 {
        0x20
    } else if k == 3 {
        0x10
    } else if k == 4 {
        0x08
    } else if k == 5 {
        0x04
    } else if k == 6 {
        0x02
    } else {
        0x01
    }
}

/// Bit `i` of `bytes`, counted from the most significant bit of the first.
pub open spec fn bit_of(bytes: Seq<u8>, i: int) -> bool {
    bytes[i / 8] & bit_mask(i % 8) != 0
}

/// The first `n` bits of `bytes`.
pub open spec fn unpacked(bytes: Seq<u8>, n: nat) -> Seq<bool> {
    Seq::new(n, |i: int| bit_of(bytes, i))
}

/// The bytes that `n` bits occupy.
pub open spec fn bytes_for_bits(n: nat) -> nat {
    (n + 7) / 8
}

/// A vector of `n` bits. More bits than a vector can hold are refused as a
/// size overflow, before anything is read.
pub open spec fn spec_take_bitvec(s: Seq<u8>, n: nat) -> Decoded<Seq<bool>> {
    if n > max_bits() {
        Err(fail_at(SevenZParserErrorKind::ConversionFailure(SevenZConversionError::ToUsize), s))
    } else {
        match spec_take(s, bytes_for_bits(n)) {
            Err(e) => Err(e),
            Ok((rest, bytes)) => Ok((rest, unpacked(bytes, n))),
        }
    }
}

/// A bit vector leaves an end of its input.
pub proof fn lemma_take_bitvec_leaves_end(s: Seq<u8>, n: nat)
    ensures
        leaves_end(spec_take_bitvec(s, n), s),
{
    lemma_fields_leave_end(s, bytes_for_bits(n));
}

fn mask_of(k: usize) -> (m: u8)
    requires
        k < 8,
    ensures
        m == bit_mask(k as int),
{
    match k {
        0 => 0x80,
        1 => 0x40,
        2 => 0x20,
        3 => 0x10,
        4 => 0x08,
        5 => 0x04,
        6 => 0x02,
        _ => 0x01,
    }
}

/// Extracts `num_bits` bits from the front of `input`.
pub fn take_bitvec(input: &[u8], num_bits: usize) -> (r: SevenZResult<Bits>)
    ensures
        decodes(r, spec_take_bitvec(input@, num_bits as nat)),
{
    if num_bits > usize::MAX / 8 {
        return Err(
            SevenZParserError::new(
                SevenZParserErrorKind::ConversionFailure(SevenZConversionError::ToUsize),
                input.len(),
            ),
        );
    }
    let (rest, bytes) = take(input, (num_bits + 7) / 8)?;
    let mut bits = Bits::new();
    let mut i: usize = 0;
    while i < num_bits
        invariant
            i <= num_bits,
            num_bits <= max_bits(),
            bytes@.len() == bytes_for_bits(num_bits as nat),
            bits@ == unpacked(bytes@, i as nat),
        decreases num_bits - i,
    {
        let bit = bytes[i / 8] & mask_of(i % 8) != 0;
        proof {
            assert(unpacked(bytes@, i as nat).push(bit) =~= unpacked(bytes@, (i + 1) as nat));
        }
        bits.push(bit);
        i = i + 1;
    }
    Ok((rest, bits))
}

/// What bit `i` of `bits` contributes to the byte it is packed into.
pub open spec fn bit_weight(bits: Seq<bool>, i: int) -> u8 {
    if 0 <= i < bits.len() && bits[i] {
        bit_mask(i % 8)
    } else {
        0
    }
}

/// Byte `j` of `bits` packed from the most significant bit down, with zeros
/// where the bits end.
pub open spec fn packed_byte(bits: Seq<bool>, j: int) -> u8 {
    bit_weight(bits, 8 * j) | bit_weight(bits, 8 * j + 1) | bit_weight(bits, 8 * j + 2)
        | bit_weight(bits, 8 * j + 3) | bit_weight(bits, 8 * j + 4) | bit_weight(bits, 8 * j + 5)
        | bit_weight(bits, 8 * j + 6) | bit_weight(bits, 8 * j + 7)
}

/// `bits` packed into bytes.
pub open spec fn pack_bits(bits: Seq<bool>) -> Seq<u8> {
    Seq::new(bytes_for_bits(bits.len()), |j: int| packed_byte(bits, j))
}

/// The byte whose `m` most significant bits are set, all of them from eight
/// on.
pub open spec fn keep_mask(m: int) -> u8 {
    if m >= 8 {
        0xff
    } else if m == 7 {
        0xfe
    } else if m == 6 {
        0xfc
    } else if m == 5 {
        0xf8
    } else if m == 4 {
        0xf0
    } else if m == 3 {
        0xe0
    } else if m == 2 {
        0xc0
    } else if m == 1 {
        0x80
    } else {
        0
    }
}

/// The contribution of bit `k` of the byte `x`, if it is among the first `m`.
spec fn kept_bit(x: u8, k: int, m: int) -> u8 {
    if k < m && x & bit_mask(k) != 0 {
        bit_mask(k)
    } else {
        0
    }
}

proof fn lemma_kept_bits(x: u8, m: int)
    requires
        m >= 1,
    ensures
        kept_bit(x, 0, m) | kept_bit(x, 1, m) | kept_bit(x, 2, m) | kept_bit(x, 3, m) | kept_bit(
            x,
            4,
            m,
        ) | kept_bit(x, 5, m) | kept_bit(x, 6, m) | kept_bit(x, 7, m) == x & keep_mask(m),
{
    let w0 = kept_bit(x, 0, m);
    let w1 = kept_bit(x, 1, m);
    let w2 = kept_bit(x, 2, m);
    let w3 = kept_bit(x, 3, m);
    let w4 = kept_bit(x, 4, m);
    let w5 = kept_bit(x, 5, m);
    let w6 = kept_bit(x, 6, m);
    let w7 = kept_bit(x, 7, m);
    let a0: u8 = if x & 0x80 != 0 { 0x80 } else { 0 };
    let a1: u8 = if x & 0x40 != 0 { 0x40 } else { 0 };
    let a2: u8 = if x & 0x20 != 0 { 0x20 } else { 0 };
    let a3: u8 = if x & 0x10 != 0 { 0x10 } else { 0 };
    let a4: u8 = if x & 0x08 != 0 { 0x08 } else { 0 };
    let a5: u8 = if x & 0x04 != 0 { 0x04 } else { 0 };
    let a6: u8 = if x & 0x02 != 0 { 0x02 } else { 0 };
    let a7: u8 = if x & 0x01 != 0 { 0x01 } else { 0 };
    assert(a0 == x & 0x80 && a1 == x & 0x40 && a2 == x & 0x20 && a3 == x & 0x10 && a4 == x & 0x08
        && a5 == x & 0x04 && a6 == x & 0x02 && a7 == x & 0x01) by (bit_vector)
        requires
            a0 == if x & 0x80 != 0 { 0x80u8 } else { 0u8 },
            a1 == if x & 0x40 != 0 { 0x40u8 } else { 0u8 },
            a2 == if x & 0x20 != 0 { 0x20u8 } else { 0u8 },
            a3 == if x & 0x10 != 0 { 0x10u8 } else { 0u8 },
            a4 == if x & 0x08 != 0 { 0x08u8 } else { 0u8 },
            a5 == if x & 0x04 != 0 { 0x04u8 } else { 0u8 },
            a6 == if x & 0x02 != 0 { 0x02u8 } else { 0u8 },
            a7 == if x & 0x01 != 0 { 0x01u8 } else { 0u8 },
    ;
    let z: u8 = 0;
    if m >= 8 {
        assert((x & 0x80) | (x & 0x40) | (x & 0x20) | (x & 0x10) | (x & 0x08) | (x & 0x04) | (x
            & 0x02) | (x & 0x01) == x & 0xff) by (bit_vector);
    } else if m == 7 {
        assert((x & 0x80) | (x & 0x40) | (x & 0x20) | (x & 0x10) | (x & 0x08) | (x & 0x04) | (x
            & 0x02) | z == x & 0xfe) by (bit_vector)
            requires
                z == 0,
        ;
    } else if m == 6 {
        assert((x & 0x80) | (x & 0x40) | (x & 0x20) | (x & 0x10) | (x & 0x08) | (x & 0x04) | z | z
            == x & 0xfc) by (bit_vector)
            requires
                z == 0,
        ;
    } else if m == 5 {
        assert((x & 0x80) | (x & 0x40) | (x & 0x20) | (x & 0x10) | (x & 0x08) | z | z | z == x
            & 0xf8) by (bit_vector)
            requires
                z == 0,
        ;
    } else if m == 4 {
        assert((x & 0x80) | (x & 0x40) | (x & 0x20) | (x & 0x10) | z | z | z | z == x & 0xf0)
            by (bit_vector)
            requires
                z == 0,
        ;
    } else if m == 3 {
        assert((x & 0x80) | (x & 0x40) | (x & 0x20) | z | z | z | z | z == x & 0xe0)
            by (bit_vector)
            requires
                z == 0,
        ;
    } else if m == 2 {
        assert((x & 0x80) | (x & 0x40) | z | z | z | z | z | z == x & 0xc0) by (bit_vector)
            requires
                z == 0,
        ;
    } else {
        assert((x & 0x80) | z | z | z | z | z | z | z == x & 0x80) by (bit_vector)
            requires
                z == 0,
        ;
    }
}

/// Unpacking and packing again: `n` bits taken from `b` are `n` bits, what
/// is left of `b` begins behind the bytes they occupy, and packed they give
/// those bytes back, the last of them with the bits that were not taken
/// cleared.
pub proof fn lemma_take_bitvec_repacks(b: Seq<u8>, n: nat)
    requires
        n <= 8 * b.len(),
        n <= max_bits(),
    ensures
        spec_take_bitvec(b, n) matches Ok((rest, bits)) && {
            &&& rest == b.skip(bytes_for_bits(n) as int)
            &&& bits.len() == n
            &&& pack_bits(bits).len() == bytes_for_bits(n)
            &&& forall|j: int|
                0 <= j < bytes_for_bits(n) ==> #[trigger] pack_bits(bits)[j] == b[j] & keep_mask(
                    n - 8 * j,
                )
            &&& forall|j: int| 0 <= j < n / 8 ==> #[trigger] pack_bits(bits)[j] == b[j]
        },
{
    let bytes = b.take(bytes_for_bits(n) as int);
    let bits = unpacked(bytes, n);
    assert forall|j: int| 0 <= j < bytes_for_bits(n) implies #[trigger] pack_bits(bits)[j] == b[j]
        & keep_mask(n - 8 * j) by {
        let x = b[j];
        let m = n - 8 * j;
        assert(bytes[j] == x);
        assert forall|k: int| 0 <= k < 8 implies bit_weight(bits, 8 * j + k) == kept_bit(
            x,
            k,
            m,
        ) by {
            if k < m {
                assert((8 * j + k) / 8 == j);
                assert((8 * j + k) % 8 == k);
                assert(bits[8 * j + k] == bit_of(bytes, 8 * j + k));
            }
        }
        assert(bit_weight(bits, 8 * j) == kept_bit(x, 0, m));
        assert(bit_weight(bits, 8 * j + 1) == kept_bit(x, 1, m));
        assert(bit_weight(bits, 8 * j + 2) == kept_bit(x, 2, m));
        assert(bit_weight(bits, 8 * j + 3) == kept_bit(x, 3, m));
        assert(bit_weight(bits, 8 * j + 4) == kept_bit(x, 4, m));
        assert(bit_weight(bits, 8 * j + 5) == kept_bit(x, 5, m));
        assert(bit_weight(bits, 8 * j + 6) == kept_bit(x, 6, m));
        assert(bit_weight(bits, 8 * j + 7) == kept_bit(x, 7, m));
        lemma_kept_bits(x, m);
    }
    assert forall|j: int| 0 <= j < n / 8 implies #[trigger] pack_bits(bits)[j] == b[j] by {
        let x = b[j];
        assert(pack_bits(bits)[j] == x & keep_mask(n - 8 * j));
        assert(x & 0xff == x) by (bit_vector);
    }
}

} // verus!

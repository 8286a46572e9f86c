//! Fixed-width fields: single bytes, byte runs and little-endian integers.

use crate::parser::err::{
    decodes, fail_at, leaves_end, lemma_skip_is_end, Decoded, SevenZParserError,
    SevenZParserErrorKind, SevenZResult,
};
use vstd::prelude::*;
use vstd::slice::slice_subrange;

verus! {

/// 256 to the power `n`.
pub open spec fn pow256(n: nat) -> nat
    decreases n,
{
    if n == 0 {
        1
    } else {
        256 * pow256((n - 1) as nat)
    }
}

/// The number whose little-endian base-256 digits are `bytes`.
pub open spec fn le_value(bytes: Seq<u8>) -> nat
    decreases bytes.len(),
{
    if bytes.len() == 0 {
        0
    } else {
        bytes[0] as nat + 256 * le_value(bytes.skip(1))
    }
}

/// The powers of 256 up to the ninth.
pub proof fn lemma_pow256_values()
    ensures
        pow256(0) == 1,
        pow256(1) == 0x100,
        pow256(2) == 0x1_0000,
        pow256(3) == 0x100_0000,
        pow256(4) == 0x1_0000_0000,
        pow256(5) == 0x100_0000_0000,
        pow256(6) == 0x1_0000_0000_0000,
        pow256(7) == 0x100_0000_0000_0000,
        pow256(8) == 0x1_0000_0000_0000_0000,
{
    reveal_with_fuel(pow256, 9);
}

/// A little-endian number of `n` digits is below `256^n`.
pub proof fn lemma_le_value_bound(bytes: Seq<u8>)
    ensures
        le_value(bytes) < pow256(bytes.len()),
    decreases bytes.len(),
{
    if bytes.len() > 0 {
        lemma_le_value_bound(bytes.skip(1));
    }
}

/// The `n` low base-256 digits of `v`, least significant first.
pub open spec fn le_bytes(v: nat, n: nat) -> Seq<u8>
    decreases n,
{
    if n == 0 {
        Seq::empty()
    } else {
        seq![(v % 256) as u8] + le_bytes(v / 256, (n - 1) as nat)
    }
}

/// `le_bytes` yields `n` digits, and they spell `v` modulo `256^n`.
pub proof fn lemma_le_bytes(v: nat, n: nat)
    ensures
        le_bytes(v, n).len() == n,
        le_value(le_bytes(v, n)) == v % pow256(n),
    decreases n,
{
    if n > 0 {
        let m = (n - 1) as nat;
        lemma_le_bytes(v / 256, m);
        lemma_pow256_positive(m);
        assert(le_bytes(v, n).skip(1) =~= le_bytes(v / 256, m));
        vstd::arithmetic::div_mod::lemma_breakdown(v as int, 256, pow256(m) as int);
    }
}

/// No power of 256 is zero.
pub proof fn lemma_pow256_positive(n: nat)
    ensures
        pow256(n) > 0,
    decreases n,
{
    if n > 0 {
        lemma_pow256_positive((n - 1) as nat);
    }
}

/// The first `n` bytes, or `Truncated` when fewer remain.
pub open spec fn spec_take(s: Seq<u8>, n: nat) -> Decoded<Seq<u8>> {
    if s.len() >= n {
        Ok((s.skip(n as int), s.take(n as int)))
    } else {
        Err(fail_at(SevenZParserErrorKind::Truncated, s))
    }
}

/// One byte.
pub open spec fn spec_byte(s: Seq<u8>) -> Decoded<u8> {
    match spec_take(s, 1) {
        Ok((rest, b)) => Ok((rest, b[0])),
        Err(e) => Err(e),
    }
}

/// A little-endian 16-bit integer.
pub open spec fn spec_le_u16(s: Seq<u8>) -> Decoded<u16> {
    match spec_take(s, 2) {
        Ok((rest, b)) => Ok((rest, le_value(b) as u16)),
        Err(e) => Err(e),
    }
}

/// A little-endian 32-bit integer.
pub open spec fn spec_le_u32(s: Seq<u8>) -> Decoded<u32> {
    match spec_take(s, 4) {
        Ok((rest, b)) => Ok((rest, le_value(b) as u32)),
        Err(e) => Err(e),
    }
}

/// A little-endian 64-bit integer.
pub open spec fn spec_le_u64(s: Seq<u8>) -> Decoded<u64> {
    match spec_take(s, 8) {
        Ok((rest, b)) => Ok((rest, le_value(b) as u64)),
        Err(e) => Err(e),
    }
}

/// The fixed-width fields leave an end of their input.
pub proof fn lemma_fields_leave_end(s: Seq<u8>, n: nat)
    ensures
        leaves_end(spec_take(s, n), s),
        leaves_end(spec_byte(s), s),
        leaves_end(spec_le_u16(s), s),
        leaves_end(spec_le_u32(s), s),
        leaves_end(spec_le_u64(s), s),
{
    if s.len() >= n {
        lemma_skip_is_end(s, n as int);
    }
    if s.len() >= 1 {
        lemma_skip_is_end(s, 1);
    }
    if s.len() >= 2 {
        lemma_skip_is_end(s, 2);
    }
    if s.len() >= 4 {
        lemma_skip_is_end(s, 4);
    }
    if s.len() >= 8 {
        lemma_skip_is_end(s, 8);
    }
}

/// Splits off the first `n` bytes of `input`.
pub fn take(input: &[u8], n: usize) -> (r: SevenZResult<&[u8]>)
    ensures
        decodes(r, spec_take(input@, n as nat)),
{
    if input.len() < n {
        return Err(SevenZParserError::new(SevenZParserErrorKind::Truncated, input.len()));
    }
    let head = slice_subrange(input, 0, n);
    let rest = slice_subrange(input, n, input.len());
    Ok((rest, head))
}

/// Reads `bytes`, at most eight of them, as a little-endian number.
pub fn le_uint(bytes: &[u8]) -> (v: u64)
    requires
        bytes@.len() <= 8,
    ensures
        v == le_value(bytes@),
{
    let n = bytes.len();
    let mut v: u64 = 0;
    let mut i: usize = n;
    proof {
        assert(bytes@.subrange(n as int, n as int) =~= Seq::<u8>::empty());
    }
    while i > 0
        invariant
            i <= n,
            n == bytes@.len(),
            n <= 8,
            v == le_value(bytes@.subrange(i as int, n as int)),
        decreases i,
    {
        proof {
            let tail = bytes@.subrange(i as int, n as int);
            let next = bytes@.subrange(i - 1, n as int);
            assert(next.skip(1) =~= tail);
            lemma_le_value_bound(next);
            lemma_pow256_values();
            assert(pow256(next.len()) <= pow256(8)) by {
                reveal_with_fuel(pow256, 9);
            }
        }
        i = i - 1;
        v = v * 256 + bytes[i] as u64;
    }
    proof {
        assert(bytes@.subrange(0, n as int) =~= bytes@);
    }
    v
}

/// Reads one byte.
pub fn byte(input: &[u8]) -> (r: SevenZResult<u8>)
    ensures
        decodes(r, spec_byte(input@)),
{
    let (rest, b) = take(input, 1)?;
    Ok((rest, b[0]))
}

/// Reads a little-endian 16-bit integer.
pub fn le_u16(input: &[u8]) -> (r: SevenZResult<u16>)
    ensures
        decodes(r, spec_le_u16(input@)),
{
    let (rest, b) = take(input, 2)?;
    proof {
        lemma_le_value_bound(b@);
        lemma_pow256_values();
    }
    Ok((rest, le_uint(b) as u16))
}

/// Reads a little-endian 32-bit integer.
pub fn le_u32(input: &[u8]) -> (r: SevenZResult<u32>)
    ensures
        decodes(r, spec_le_u32(input@)),
{
    let (rest, b) = take(input, 4)?;
    proof {
        lemma_le_value_bound(b@);
        lemma_pow256_values();
    }
    Ok((rest, le_uint(b) as u32))
}

/// Reads a little-endian 64-bit integer.
pub fn le_u64(input: &[u8]) -> (r: SevenZResult<u64>)
    ensures
        decodes(r, spec_le_u64(input@)),
{
    let (rest, b) = take(input, 8)?;
    Ok((rest, le_uint(b)))
}

} // verus!

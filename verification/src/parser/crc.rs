//! The checksum of the format: CRC-32 with the reflected polynomial
//! `0x04C11DB7`, all ones as initial value and as final XOR.

use crate::parser::err::SevenZParserErrorKind;
use vstd::prelude::*;

verus! {

/// The CRC-32/ISO-HDLC checksum of `bytes`, as the `crc` crate computes it.
pub uninterp spec fn crc32_iso_hdlc(bytes: Seq<u8>) -> u32;

/// `Crc::<u32>::checksum` of the `crc` crate, for its catalogue entry
/// `CRC_32_ISO_HDLC`: the checksum depends on the bytes alone.
#[verifier::external_body]
fn crc32_checksum(input: &[u8]) -> (crc: u32)
    ensures
        crc == crc32_iso_hdlc(input@),
{
    ::crc::Crc::<u32>::new(&::crc::CRC_32_ISO_HDLC).checksum(input)
}

/// The checksum of `input`.
pub fn sevenz_crc(input: &[u8]) -> (crc: u32)
    ensures
        crc == crc32_iso_hdlc(input@),
{
    crc32_checksum(input)
}

/// The checksum is a function of the bytes: what `sevenz_crc` returns on
/// inputs that hold the same bytes is the same.
pub proof fn lemma_sevenz_crc_deterministic(a: &[u8], b: &[u8], crc_a: u32, crc_b: u32)
    requires
        a@ == b@,
        call_ensures(sevenz_crc, (a,), crc_a),
        call_ensures(sevenz_crc, (b,), crc_b),
    ensures
        crc_a == crc_b,
{
}

/// Holds a computed checksum against the stored one.
pub fn verify(expected: u32, actual: u32) -> (r: Result<(), SevenZParserErrorKind>)
    ensures
        expected == actual ==> r == Ok::<(), SevenZParserErrorKind>(()),
        expected != actual ==> r == Err::<(), SevenZParserErrorKind>(
            SevenZParserErrorKind::Crc { expected, actual },
        ),
{
    if expected == actual {
        Ok(())
    } else {
        Err(SevenZParserErrorKind::Crc { expected, actual })
    }
}

} // verus!

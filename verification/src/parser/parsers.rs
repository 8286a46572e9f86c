//! Decoders for the 7z container format.
//!
//! Each decoder takes the bytes that start at its first field and returns the
//! bytes it left unread together with what it decoded. Beside each stands a
//! specification function of the same shape on byte sequences.

pub mod bit;
pub mod bytes;
pub mod coders_info;
pub mod files_info;
pub mod header;
pub mod sevenz_uint64;
pub mod streams_info;

use crate::parser::combinators::{
    count, lemma_count_leaves_end, lemma_preceded_opt_leaves_end, preceded_opt, spec_count,
    spec_preceded_opt,
};
use crate::parser::crc::{crc32_iso_hdlc, sevenz_crc, verify};
use crate::parser::err::{
    decodes, decodes_opt, fail_at, fail_with, in_bounds, leaves_end, lemma_skip_is_end,
    Decoded, SevenZParserError, SevenZParserErrorKind, SevenZResult,
};
use crate::parser::parsers::bytes::{
    byte, le_u32, le_u64, le_value, lemma_fields_leave_end, spec_byte, spec_le_u32,
    spec_le_u64, spec_take, take,
};
use crate::parser::parsers::sevenz_uint64::{
    lemma_sevenz_uint64_leaves_end, sevenz_uint64, spec_sevenz_uint64,
};
use crate::parser::types::header::{
    ArchiveVersion, SignatureHeader, StartHeader, START_HEADER_SIZE_BYTES,
};
use crate::parser::types::lemma_seq_view_plain;
use crate::parser::types::property_id::PropertyID;
use vstd::prelude::*;

verus! {

/// Whether `bytes` are the six magic bytes `37 7A BC AF 27 1C`.
pub open spec fn is_magic(bytes: Seq<u8>) -> bool {
    &&& bytes.len() == 6
    &&& bytes[0] == 0x37
    &&& bytes[1] == 0x7A
    &&& bytes[2] == 0xBC
    &&& bytes[3] == 0xAF
    &&& bytes[4] == 0x27
    &&& bytes[5] == 0x1C
}

/// The version of the format: two bytes, major then minor.
pub open spec fn spec_archive_version(s: Seq<u8>) -> Decoded<ArchiveVersion> {
    match spec_byte(s) {
        Err(e) => Err(e),
        Ok((rest, major)) => match spec_byte(rest) {
            Err(e) => Err(e),
            Ok((rest, minor)) => Ok((rest, ArchiveVersion { major, minor })),
        },
    }
}

/// The start header: offset and size of the header, as little-endian 64-bit
/// integers, and its checksum, as a little-endian 32-bit integer.
pub open spec fn spec_start_header(s: Seq<u8>) -> Decoded<StartHeader> {
    match spec_le_u64(s) {
        Err(e) => Err(e),
        Ok((rest, next_header_offset)) => match spec_le_u64(rest) {
            Err(e) => Err(e),
            Ok((rest, next_header_size)) => match spec_le_u32(rest) {
                Err(e) => Err(e),
                Ok((rest, next_header_crc)) => Ok(
                    (rest, StartHeader { next_header_offset, next_header_size, next_header_crc }),
                ),
            },
        },
    }
}

/// The signature header: magic bytes, version, the checksum of the start
/// header, and the start header, whose twenty bytes must have that checksum.
/// A mismatch is reported at the start header.
#[verifier::opaque]
pub open spec fn spec_signature_header(s: Seq<u8>) -> Decoded<SignatureHeader> {
    match spec_take(s, 6) {
        Err(e) => Err(e),
        Ok((rest, magic)) => if !is_magic(magic) {
            Err(fail_at(SevenZParserErrorKind::InvalidTag, s))
        } else {
            match spec_archive_version(rest) {
                Err(e) => Err(e),
                Ok((rest, archive_version)) => match spec_le_u32(rest) {
                    Err(e) => Err(e),
                    Ok((rest, start_header_crc)) => match spec_take(
                        rest,
                        START_HEADER_SIZE_BYTES as nat,
                    ) {
                        Err(e) => Err(e),
                        Ok((_, raw)) => match spec_start_header(rest) {
                            Err(e) => Err(e),
                            Ok((after, start_header)) => if crc32_iso_hdlc(raw)
                                != start_header_crc {
                                Err(
                                    fail_at(
                                        SevenZParserErrorKind::Crc {
                                            expected: start_header_crc,
                                            actual: crc32_iso_hdlc(raw),
                                        },
                                        rest,
                                    ),
                                )
                            } else {
                                Ok(
                                    (
                                        after,
                                        SignatureHeader {
                                            archive_version,
                                            start_header_crc,
                                            start_header,
                                        },
                                    ),
                                )
                            },
                        },
                    },
                },
            }
        },
    }
}

/// A byte that encodes a boolean: 0 or 1.
pub open spec fn spec_bool_byte(s: Seq<u8>) -> Decoded<bool> {
    match spec_byte(s) {
        Err(e) => Err(e),
        Ok((rest, b)) => if b == 0 {
            Ok((rest, false))
        } else if b == 1 {
            Ok((rest, true))
        } else {
            Err(fail_at(SevenZParserErrorKind::InvalidBooleanByte(b), s))
        },
    }
}

/// A marker, whichever it is.
pub open spec fn spec_property_id(s: Seq<u8>) -> Decoded<PropertyID> {
    match spec_byte(s) {
        Err(e) => Err(e),
        Ok((rest, b)) => match PropertyID::of_byte(b) {
            Some(id) => Ok((rest, id)),
            None => Err(fail_at(SevenZParserErrorKind::InvalidPropertyID(b), s)),
        },
    }
}

/// The marker `id`, and no other.
pub open spec fn spec_tag_property_id(s: Seq<u8>, id: PropertyID) -> Decoded<PropertyID> {
    match spec_property_id(s) {
        Err(e) => Err(e),
        Ok((rest, p)) => if p == id {
            Ok((rest, p))
        } else {
            Err(fail_at(SevenZParserErrorKind::InvalidTag, s))
        },
    }
}

/// The decoder of packed integers, as a value.
pub open spec fn sevenz_uint64_decoder() -> spec_fn(Seq<u8>) -> Decoded<u64> {
    |s: Seq<u8>| spec_sevenz_uint64(s)
}

/// The decoder of little-endian 32-bit integers, as a value.
pub open spec fn le_u32_decoder() -> spec_fn(Seq<u8>) -> Decoded<u32> {
    |s: Seq<u8>| spec_le_u32(s)
}

/// `n` packed integers.
pub open spec fn spec_count_sevenz_uint64(s: Seq<u8>, n: nat) -> Decoded<Seq<u64>> {
    spec_count(sevenz_uint64_decoder(), s, n)
}

/// `n` little-endian 32-bit integers.
pub open spec fn spec_count_le_u32(s: Seq<u8>, n: nat) -> Decoded<Seq<u32>> {
    spec_count(le_u32_decoder(), s, n)
}

/// Markers and boolean bytes leave an end of their input.
pub proof fn lemma_markers_leave_end(s: Seq<u8>, id: PropertyID)
    ensures
        leaves_end(spec_bool_byte(s), s),
        leaves_end(spec_property_id(s), s),
        leaves_end(spec_tag_property_id(s, id), s),
{
    lemma_fields_leave_end(s, 1);
}

/// The decoders of integers leave an end of their input.
pub proof fn lemma_integers_leave_end()
    ensures
        forall|x: Seq<u8>| leaves_end(#[trigger] sevenz_uint64_decoder()(x), x),
        forall|x: Seq<u8>| leaves_end(#[trigger] le_u32_decoder()(x), x),
{
    assert forall|x: Seq<u8>| leaves_end(#[trigger] sevenz_uint64_decoder()(x), x) by {
        lemma_sevenz_uint64_leaves_end(x);
    }
    assert forall|x: Seq<u8>| leaves_end(#[trigger] le_u32_decoder()(x), x) by {
        lemma_fields_leave_end(x, 4);
    }
}

/// Integers behind a marker leave an end of their input.
pub proof fn lemma_tagged_leave_end(s: Seq<u8>, id: PropertyID, n: nat)
    ensures
        leaves_end(spec_tagged_sevenz_uint64s(s, id, n), s),
        leaves_end(spec_tagged_le_u32s(s, id, n), s),
{
    lemma_integers_leave_end();
    lemma_count_leaves_end(sevenz_uint64_decoder(), s.skip(1), n);
    lemma_count_leaves_end(le_u32_decoder(), s.skip(1), n);
    lemma_preceded_opt_leaves_end(id, |x: Seq<u8>| spec_count_sevenz_uint64(x, n), s);
    lemma_preceded_opt_leaves_end(id, |x: Seq<u8>| spec_count_le_u32(x, n), s);
}

/// The signature header leaves an end of its input.
pub proof fn lemma_signature_header_leaves_end(s: Seq<u8>)
    ensures
        leaves_end(spec_signature_header(s), s),
{
    reveal(spec_signature_header);
    if s.len() >= 32 {
        lemma_skip_is_end(s, 32);
        assert(s.skip(6).skip(1).skip(1).skip(4).skip(8).skip(8).skip(4) =~= s.skip(32));
    }
}

/// The decoders of integers leave unread, and report errors, within their
/// input.
pub proof fn lemma_integers_in_bounds()
    ensures
        forall|x: Seq<u8>| in_bounds(#[trigger] sevenz_uint64_decoder()(x), x),
        forall|x: Seq<u8>| in_bounds(#[trigger] le_u32_decoder()(x), x),
{
}

/// The signature header is decoded within its input.
pub proof fn lemma_signature_header_in_bounds(s: Seq<u8>)
    ensures
        in_bounds(spec_signature_header(s), s),
{
    reveal(spec_signature_header);
}

/// Where the twenty bytes of the start header do not have the checksum
/// stored before them, the signature header is refused with both
/// checksums, whatever the start header holds and whatever follows it.
pub proof fn lemma_start_header_checksum(s: Seq<u8>)
    requires
        s.len() >= 32,
        is_magic(s.take(6)),
        crc32_iso_hdlc(s.subrange(12, 32)) != le_value(s.subrange(8, 12)) as u32,
    ensures
        spec_signature_header(s) == Err::<(Seq<u8>, SignatureHeader), SevenZParserError>(
            fail_with(
                SevenZParserErrorKind::Crc {
                    expected: le_value(s.subrange(8, 12)) as u32,
                    actual: crc32_iso_hdlc(s.subrange(12, 32)),
                },
                (s.len() - 12) as nat,
            ),
        ),
{
    reveal(spec_signature_header);
    let after_magic = s.skip(6);
    let after_major = after_magic.skip(1);
    let after_version = after_major.skip(1);
    let after_crc = after_version.skip(4);
    assert(after_version.take(4) =~= s.subrange(8, 12));
    assert(after_crc =~= s.skip(12));
    assert(after_crc.take(20) =~= s.subrange(12, 32));
    let after_offset = after_crc.skip(8);
    let after_size = after_offset.skip(8);
    assert(after_size.len() >= 4);
}

/// Decodes the version of the format: major, then minor.
pub fn archive_version(input: &[u8]) -> (r: SevenZResult<ArchiveVersion>)
    ensures
        decodes(r, spec_archive_version(input@)),
{
    let (input, major) = byte(input)?;
    let (input, minor) = byte(input)?;
    Ok((input, ArchiveVersion { major, minor }))
}

/// Decodes the start header: where the header lies, its size and its checksum.
pub fn start_header(input: &[u8]) -> (r: SevenZResult<StartHeader>)
    ensures
        decodes(r, spec_start_header(input@)),
{
    let (input, next_header_offset) = le_u64(input)?;
    let (input, next_header_size) = le_u64(input)?;
    let (input, next_header_crc) = le_u32(input)?;
    Ok((input, StartHeader { next_header_offset, next_header_size, next_header_crc }))
}

/// Decodes the signature header and checks the start header's checksum.
pub fn signature_header(input: &[u8]) -> (r: SevenZResult<SignatureHeader>)
    ensures
        decodes(r, spec_signature_header(input@)),
{
    reveal(spec_signature_header);
    let (rest, magic) = take(input, 6)?;
    if !(magic[0] == 0x37 && magic[1] == 0x7A && magic[2] == 0xBC && magic[3] == 0xAF && magic[4]
        == 0x27 && magic[5] == 0x1C) {
        return Err(SevenZParserError::new(SevenZParserErrorKind::InvalidTag, input.len()));
    }
    let (rest, archive_version) = archive_version(rest)?;
    let (rest, start_header_crc) = le_u32(rest)?;
    let (_, raw_start_header) = take(rest, START_HEADER_SIZE_BYTES)?;
    let (after, start_header) = start_header(rest)?;
    let calculated_crc = sevenz_crc(raw_start_header);
    match verify(start_header_crc, calculated_crc) {
        Err(kind) => Err(SevenZParserError::new(kind, rest.len())),
        Ok(_) => Ok((after, SignatureHeader { archive_version, start_header_crc, start_header })),
    }
}

/// Decodes a byte that encodes a boolean.
pub fn bool_byte(input: &[u8]) -> (r: SevenZResult<bool>)
    ensures
        decodes(r, spec_bool_byte(input@)),
{
    let (rest, b) = byte(input)?;
    match b {
        0 => Ok((rest, false)),
        1 => Ok((rest, true)),
        _ => Err(
            SevenZParserError::new(SevenZParserErrorKind::InvalidBooleanByte(b), input.len()),
        ),
    }
}

/// Decodes a marker, whichever it is.
pub fn property_id(input: &[u8]) -> (r: SevenZResult<PropertyID>)
    ensures
        decodes(r, spec_property_id(input@)),
{
    let (rest, b) = byte(input)?;
    match PropertyID::try_from(b) {
        Ok(id) => Ok((rest, id)),
        Err(_) => Err(
            SevenZParserError::new(SevenZParserErrorKind::InvalidPropertyID(b), input.len()),
        ),
    }
}

/// Decodes the marker `id`, and refuses any other.
pub fn tag_property_id(input: &[u8], id: PropertyID) -> (r: SevenZResult<PropertyID>)
    ensures
        decodes(r, spec_tag_property_id(input@, id)),
{
    let (rest, p) = property_id(input)?;
    if p == id {
        Ok((rest, p))
    } else {
        Err(SevenZParserError::new(SevenZParserErrorKind::InvalidTag, input.len()))
    }
}

/// Decodes `n` packed integers.
pub fn count_sevenz_uint64(input: &[u8], n: usize) -> (r: SevenZResult<Vec<u64>>)
    ensures
        decodes(r, spec_count_sevenz_uint64(input@, n as nat)),
{
    match count(sevenz_uint64, n, input, Ghost(sevenz_uint64_decoder())) {
        Err(e) => Err(e),
        Ok((rest, items)) => {
            proof {
                lemma_seq_view_plain(items@);
            }
            Ok((rest, items))
        },
    }
}

/// Decodes `n` little-endian 32-bit integers.
pub fn count_le_u32(input: &[u8], n: usize) -> (r: SevenZResult<Vec<u32>>)
    ensures
        decodes(r, spec_count_le_u32(input@, n as nat)),
{
    match count(le_u32, n, input, Ghost(le_u32_decoder())) {
        Err(e) => Err(e),
        Ok((rest, items)) => {
            proof {
                lemma_seq_view_plain(items@);
            }
            Ok((rest, items))
        },
    }
}

/// `n` packed integers behind the marker `id`, or nothing without it.
pub open spec fn spec_tagged_sevenz_uint64s(s: Seq<u8>, id: PropertyID, n: nat) -> Decoded<
    Option<Seq<u64>>,
> {
    spec_preceded_opt(id, |x: Seq<u8>| spec_count_sevenz_uint64(x, n), s)
}

/// `n` little-endian 32-bit integers behind the marker `id`, or nothing
/// without it.
pub open spec fn spec_tagged_le_u32s(s: Seq<u8>, id: PropertyID, n: nat) -> Decoded<
    Option<Seq<u32>>,
> {
    spec_preceded_opt(id, |x: Seq<u8>| spec_count_le_u32(x, n), s)
}

/// Decodes `n` packed integers if `input` begins with the marker `id`.
pub fn tagged_sevenz_uint64s<'a>(input: &'a [u8], id: PropertyID, n: usize) -> (r: SevenZResult<
    'a,
    Option<Vec<u64>>,
>)
    ensures
        decodes_opt(r, spec_tagged_sevenz_uint64s(input@, id, n as nat)),
{
    let integers = |x: &'a [u8]| -> (items: SevenZResult<'a, Vec<u64>>)
        ensures
            decodes(items, spec_count_sevenz_uint64(x@, n as nat)),
        {
            count_sevenz_uint64(x, n)
        };
    preceded_opt(id, integers, input)
}

/// Decodes `n` little-endian 32-bit integers if `input` begins with the
/// marker `id`.
pub fn tagged_le_u32s<'a>(input: &'a [u8], id: PropertyID, n: usize) -> (r: SevenZResult<
    'a,
    Option<Vec<u32>>,
>)
    ensures
        decodes_opt(r, spec_tagged_le_u32s(input@, id, n as nat)),
{
    let integers = |x: &'a [u8]| -> (items: SevenZResult<'a, Vec<u32>>)
        ensures
            decodes(items, spec_count_le_u32(x@, n as nat)),
        {
            count_le_u32(x, n)
        };
    preceded_opt(id, integers, input)
}

} // verus!

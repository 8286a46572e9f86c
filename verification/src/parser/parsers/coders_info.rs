//! Coders, folders, and the section that lists the folders of an archive.

use crate::parser::combinators::{
    count, either, lemma_count_all, lemma_count_in_bounds, lemma_count_leaves_end,
    lemma_count_len, spec_count,
};
use crate::parser::err::{
    decodes, decodes_each, fail_at, in_bounds, in_section, leaves_end,
    lemma_leaves_end_of_end, lemma_skip_is_end, mark_section, Decoded, SevenZConversionError,
    SevenZParserError, SevenZParserErrorKind, SevenZResult, UnsupportedFeature,
};
use crate::parser::parsers::bytes::{
    byte, lemma_fields_leave_end, spec_byte, spec_take, take,
};
use crate::parser::parsers::sevenz_uint64::{
    lemma_sevenz_uint64_leaves_end, sevenz_uint64, sevenz_uint64_as_usize, spec_sevenz_uint64,
    spec_sevenz_uint64_as_usize,
};
use crate::parser::combinators::spec_has_tag;
use crate::parser::parsers::{
    bool_byte, count_sevenz_uint64, le_u32_decoder, lemma_integers_in_bounds,
    lemma_integers_leave_end, lemma_markers_leave_end, lemma_tagged_leave_end,
    sevenz_uint64_decoder, spec_bool_byte,
    spec_count_sevenz_uint64, spec_tag_property_id, spec_tagged_le_u32s, tag_property_id,
    tagged_le_u32s,
};
use crate::parser::types::coders_info::{
    total_folder_out_streams, total_in_streams, total_out_streams, Coder, CoderComplex,
    CoderView, CodersInfo, CodersInfoView, Folder, FolderView,
};
use crate::parser::types::property_id::PropertyID;
use crate::parser::types::{lemma_seq_view_plain, seq_view, Either};
use vstd::prelude::*;
use vstd::slice::slice_to_vec;

verus! {

/// The length of a coder's identifier: the top four bits of its first byte.
pub open spec fn id_len(props: u8) -> nat {
    (props >> 4) as nat
}

/// Bit 3 of a coder's first byte: stream counts follow the identifier.
pub open spec fn is_complex(props: u8) -> bool {
    props & 0x08 != 0
}

/// Bit 2 of a coder's first byte: attributes end the coder.
pub open spec fn has_attrs(props: u8) -> bool {
    props & 0x04 != 0
}

/// The stream counts of a coder: two packed integers, inputs first.
pub open spec fn spec_coder_complex(s: Seq<u8>) -> Decoded<CoderComplex> {
    match spec_sevenz_uint64(s) {
        Err(e) => Err(e),
        Ok((rest, num_in_streams)) => match spec_sevenz_uint64(rest) {
            Err(e) => Err(e),
            Ok((rest, num_out_streams)) => Ok(
                (rest, CoderComplex { num_in_streams, num_out_streams }),
            ),
        },
    }
}

/// A run of bytes behind its length, a packed integer.
pub open spec fn spec_sized_bytes(s: Seq<u8>) -> Decoded<Seq<u8>> {
    match spec_sevenz_uint64_as_usize(s) {
        Err(e) => Err(e),
        Ok((rest, len)) => spec_take(rest, len as nat),
    }
}

/// A coder: the byte of flags, the identifier, the stream counts if the
/// coder is complex, the attributes if it has any.
pub open spec fn spec_coder(s: Seq<u8>) -> Decoded<CoderView> {
    match spec_byte(s) {
        Err(e) => Err(e),
        Ok((rest, props)) => match spec_take(rest, id_len(props)) {
            Err(e) => Err(e),
            Ok((rest, id)) => {
                let complex = if is_complex(props) {
                    match spec_coder_complex(rest) {
                        Err(e) => Err(e),
                        Ok((rest, c)) => Ok((rest, Some(c))),
                    }
                } else {
                    Ok((rest, None))
                };
                match complex {
                    Err(e) => Err(e),
                    Ok((rest, complex)) => if has_attrs(props) {
                        match spec_sized_bytes(rest) {
                            Err(e) => Err(e),
                            Ok((rest, attrs)) => Ok(
                                (rest, CoderView { complex, attrs: Some(attrs), id }),
                            ),
                        }
                    } else {
                        Ok((rest, CoderView { complex, attrs: None, id }))
                    },
                }
            },
        },
    }
}

/// The decoder of coders, as a value.
pub open spec fn coder_decoder() -> spec_fn(Seq<u8>) -> Decoded<CoderView> {
    |s: Seq<u8>| spec_coder(s)
}

/// The coders of a folder: their number, then each of them.
pub open spec fn spec_folder_coders(s: Seq<u8>) -> Decoded<Seq<CoderView>> {
    match spec_sevenz_uint64_as_usize(s) {
        Err(e) => Err(e),
        Ok((rest, n)) => spec_count(coder_decoder(), rest, n as nat),
    }
}

/// A bind pair: two packed integers, the input index first.
pub open spec fn spec_bind_pair(s: Seq<u8>) -> Decoded<(u64, u64)> {
    match spec_sevenz_uint64(s) {
        Err(e) => Err(e),
        Ok((rest, in_index)) => match spec_sevenz_uint64(rest) {
            Err(e) => Err(e),
            Ok((rest, out_index)) => Ok((rest, (in_index, out_index))),
        },
    }
}

/// The decoder of bind pairs, as a value.
pub open spec fn bind_pair_decoder() -> spec_fn(Seq<u8>) -> Decoded<(u64, u64)> {
    |s: Seq<u8>| spec_bind_pair(s)
}

/// The error of a count beyond `usize::MAX`, raised with all of `s` unread.
pub open spec fn size_overflow(s: Seq<u8>) -> SevenZParserError {
    fail_at(SevenZParserErrorKind::ConversionFailure(SevenZConversionError::ToUsize), s)
}

/// A folder. Behind the coders stand one bind pair for each of their output
/// streams but one, then one index for each input stream that no pair
/// binds, if there is any.
///
/// Stream counts beyond `usize::MAX` are a size overflow; coders without an
/// output stream, or with fewer input streams than bind pairs, are a stream
/// count underflow. Both are reported where the count is needed: behind the
/// coders for the outputs, behind the bind pairs for the inputs.
pub open spec fn spec_folder(s: Seq<u8>) -> Decoded<FolderView> {
    match spec_folder_coders(s) {
        Err(e) => Err(e),
        Ok((rest, coders)) => {
            let total_out = total_out_streams(coders, coders.len());
            let total_in = total_in_streams(coders, coders.len());
            if total_out > usize::MAX {
                Err(size_overflow(rest))
            } else if total_out == 0 {
                Err(fail_at(SevenZParserErrorKind::StreamCountUnderflow, rest))
            } else {
                match spec_count(bind_pair_decoder(), rest, (total_out - 1) as nat) {
                    Err(e) => Err(e),
                    Ok((rest, bind_pairs)) => if total_in > usize::MAX {
                        Err(size_overflow(rest))
                    } else if total_in < total_out - 1 {
                        Err(fail_at(SevenZParserErrorKind::StreamCountUnderflow, rest))
                    } else if total_in == total_out - 1 {
                        Ok((rest, FolderView { coders, bind_pairs, packed_streams_indices: None }))
                    } else {
                        match spec_count_sevenz_uint64(rest, (total_in - (total_out - 1)) as nat) {
                            Err(e) => Err(e),
                            Ok((rest, indices)) => Ok(
                                (
                                    rest,
                                    FolderView {
                                        coders,
                                        bind_pairs,
                                        packed_streams_indices: Some(indices),
                                    },
                                ),
                            ),
                        }
                    },
                }
            }
        },
    }
}

/// The decoder of folders, as a value.
pub open spec fn folder_decoder() -> spec_fn(Seq<u8>) -> Decoded<FolderView> {
    |s: Seq<u8>| spec_folder(s)
}

/// `n` folders.
pub open spec fn spec_take_folders(s: Seq<u8>, n: nat) -> Decoded<Seq<FolderView>> {
    spec_count(folder_decoder(), s, n)
}

/// The section that lists the folders.
///
/// Behind the markers `UnPackInfo` and `Folder` stand the number of folders
/// and a boolean byte. Where the byte is set, the folders are kept in an
/// auxiliary stream whose index follows; this is refused as unsupported at
/// the point where the folders are needed, behind the marker
/// `CodersUnPackSize`. Otherwise the folders follow, then that marker, one
/// size for each output stream of each folder, one digest for each folder if
/// the marker `CRC` is there, and the marker `End`.
pub open spec fn spec_coders_info(s: Seq<u8>) -> Decoded<CodersInfoView> {
    in_section(PropertyID::UnPackInfo, spec_coders_info_fields(s))
}

/// The fields of the section, with errors as they are before they are
/// marked as the section's.
pub open spec fn spec_coders_info_fields(s: Seq<u8>) -> Decoded<CodersInfoView> {
    match spec_tag_property_id(s, PropertyID::UnPackInfo) {
        Err(e) => Err(e),
        Ok((rest, _)) => match spec_tag_property_id(rest, PropertyID::Folder) {
            Err(e) => Err(e),
            Ok((rest, _)) => match spec_sevenz_uint64_as_usize(rest) {
                Err(e) => Err(e),
                Ok((rest, num_folders)) => match spec_bool_byte(rest) {
                    Err(e) => Err(e),
                    Ok((rest, external)) => if external {
                        match spec_sevenz_uint64(rest) {
                            Err(e) => Err(e),
                            Ok((rest, _)) => match spec_tag_property_id(
                                rest,
                                PropertyID::CodersUnPackSize,
                            ) {
                                Err(e) => Err(e),
                                Ok((rest, _)) => Err(
                                    fail_at(
                                        SevenZParserErrorKind::Unsupported(
                                            UnsupportedFeature::ExternalData,
                                        ),
                                        rest,
                                    ),
                                ),
                            },
                        }
                    } else {
                        match spec_take_folders(rest, num_folders as nat) {
                            Err(e) => Err(e),
                            Ok((rest, folders)) => spec_coders_info_sizes(
                                rest,
                                num_folders,
                                folders,
                            ),
                        }
                    },
                },
            },
        },
    }
}

/// What follows the folders in their section.
pub open spec fn spec_coders_info_sizes(
    s: Seq<u8>,
    num_folders: usize,
    folders: Seq<FolderView>,
) -> Decoded<CodersInfoView> {
    match spec_tag_property_id(s, PropertyID::CodersUnPackSize) {
        Err(e) => Err(e),
        Ok((rest, _)) => {
            let total = total_folder_out_streams(folders, folders.len());
            if total > usize::MAX {
                Err(size_overflow(rest))
            } else {
                match spec_count_sevenz_uint64(rest, total) {
                    Err(e) => Err(e),
                    Ok((rest, streams_unpack_sizes)) => match spec_tagged_le_u32s(
                        rest,
                        PropertyID::CRC,
                        num_folders as nat,
                    ) {
                        Err(e) => Err(e),
                        Ok((rest, folders_unpack_digests)) => match spec_tag_property_id(
                            rest,
                            PropertyID::End,
                        ) {
                            Err(e) => Err(e),
                            Ok((rest, _)) => Ok(
                                (
                                    rest,
                                    CodersInfoView {
                                        num_folders,
                                        folders_or_data_stream_index: Either::Right(folders),
                                        streams_unpack_sizes,
                                        folders_unpack_digests,
                                    },
                                ),
                            ),
                        },
                    },
                }
            }
        },
    }
}

fn coder_complex(input: &[u8]) -> (r: SevenZResult<CoderComplex>)
    ensures
        decodes(r, spec_coder_complex(input@)),
{
    let (input, num_in_streams) = sevenz_uint64(input)?;
    let (input, num_out_streams) = sevenz_uint64(input)?;
    Ok((input, CoderComplex { num_in_streams, num_out_streams }))
}

fn sized_bytes(input: &[u8]) -> (r: SevenZResult<Vec<u8>>)
    ensures
        decodes(r, spec_sized_bytes(input@)),
{
    let (input, len) = sevenz_uint64_as_usize(input)?;
    let (input, bytes) = take(input, len)?;
    Ok((input, slice_to_vec(bytes)))
}

/// Decodes a coder.
pub fn coder(input: &[u8]) -> (r: SevenZResult<Coder>)
    ensures
        decodes(r, spec_coder(input@)),
{
    let (input, props) = byte(input)?;
    let (input, id) = take(input, (props >> 4) as usize)?;
    let id = slice_to_vec(id);
    let (input, complex) = if props & 0x08 != 0 {
        let (input, complex) = coder_complex(input)?;
        (input, Some(complex))
    } else {
        (input, None)
    };
    let (input, attrs) = if props & 0x04 != 0 {
        let (input, attrs) = sized_bytes(input)?;
        (input, Some(attrs))
    } else {
        (input, None)
    };
    Ok((input, Coder { complex, attrs, id }))
}

/// Decodes the coders of a folder, behind their number.
pub fn folder_coders(input: &[u8]) -> (r: SevenZResult<Vec<Coder>>)
    ensures
        decodes_each(r, spec_folder_coders(input@)),
{
    let (input, n) = sevenz_uint64_as_usize(input)?;
    count(coder, n, input, Ghost(coder_decoder()))
}

fn bind_pair(input: &[u8]) -> (r: SevenZResult<(u64, u64)>)
    ensures
        decodes(r, spec_bind_pair(input@)),
{
    let (input, in_index) = sevenz_uint64(input)?;
    let (input, out_index) = sevenz_uint64(input)?;
    Ok((input, (in_index, out_index)))
}

/// Decodes `n` bind pairs.
fn count_bind_pairs(input: &[u8], n: usize) -> (r: SevenZResult<Vec<(u64, u64)>>)
    ensures
        decodes(r, spec_count(bind_pair_decoder(), input@, n as nat)),
{
    match count(bind_pair, n, input, Ghost(bind_pair_decoder())) {
        Err(e) => Err(e),
        Ok((rest, items)) => {
            proof {
                lemma_seq_view_plain(items@);
            }
            Ok((rest, items))
        },
    }
}

/// More coders have no fewer output streams.
pub proof fn lemma_total_out_streams_grows(coders: Seq<CoderView>, m: nat, n: nat)
    requires
        m <= n,
    ensures
        total_out_streams(coders, m) <= total_out_streams(coders, n),
    decreases n,
{
    if m < n {
        lemma_total_out_streams_grows(coders, m, (n - 1) as nat);
    }
}

/// More coders have no fewer input streams.
pub proof fn lemma_total_in_streams_grows(coders: Seq<CoderView>, m: nat, n: nat)
    requires
        m <= n,
    ensures
        total_in_streams(coders, m) <= total_in_streams(coders, n),
    decreases n,
{
    if m < n {
        lemma_total_in_streams_grows(coders, m, (n - 1) as nat);
    }
}

/// More folders have no fewer output streams.
pub proof fn lemma_total_folder_out_streams_grows(folders: Seq<FolderView>, m: nat, n: nat)
    requires
        m <= n,
    ensures
        total_folder_out_streams(folders, m) <= total_folder_out_streams(folders, n),
    decreases n,
{
    if m < n {
        lemma_total_folder_out_streams_grows(folders, m, (n - 1) as nat);
    }
}

/// The output streams of `coders`, or `None` when they are more than
/// `usize::MAX`.
pub fn sum_out_streams(coders: &Vec<Coder>) -> (r: Option<usize>)
    ensures
        match r {
            Some(n) => n == total_out_streams(seq_view(coders@), coders@.len()),
            None => total_out_streams(seq_view(coders@), coders@.len()) > usize::MAX,
        },
{
    let mut total: usize = 0;
    let mut i: usize = 0;
    while i < coders.len()
        invariant
            i <= coders@.len(),
            total == total_out_streams(seq_view(coders@), i as nat),
        decreases coders@.len() - i,
    {
        let n: u64 = match coders[i].complex {
            Some(c) => c.num_out_streams,
            None => 1,
        };
        if n > (usize::MAX - total) as u64 {
            proof {
                lemma_total_out_streams_grows(
                    seq_view(coders@),
                    (i + 1) as nat,
                    coders@.len(),
                );
            }
            return None;
        }
        total = total + n as usize;
        i = i + 1;
    }
    Some(total)
}

/// The input streams of `coders`, or `None` when they are more than
/// `usize::MAX`.
pub fn sum_in_streams(coders: &Vec<Coder>) -> (r: Option<usize>)
    ensures
        match r {
            Some(n) => n == total_in_streams(seq_view(coders@), coders@.len()),
            None => total_in_streams(seq_view(coders@), coders@.len()) > usize::MAX,
        },
{
    let mut total: usize = 0;
    let mut i: usize = 0;
    while i < coders.len()
        invariant
            i <= coders@.len(),
            total == total_in_streams(seq_view(coders@), i as nat),
        decreases coders@.len() - i,
    {
        let n: u64 = match coders[i].complex {
            Some(c) => c.num_in_streams,
            None => 1,
        };
        if n > (usize::MAX - total) as u64 {
            proof {
                lemma_total_in_streams_grows(seq_view(coders@), (i + 1) as nat, coders@.len());
            }
            return None;
        }
        total = total + n as usize;
        i = i + 1;
    }
    Some(total)
}

fn size_overflow_at(input: &[u8]) -> (e: SevenZParserError)
    ensures
        e == size_overflow(input@),
{
    SevenZParserError::new(
        SevenZParserErrorKind::ConversionFailure(SevenZConversionError::ToUsize),
        input.len(),
    )
}

/// Decodes a folder.
pub fn folder(input: &[u8]) -> (r: SevenZResult<Folder>)
    ensures
        decodes(r, spec_folder(input@)),
        r matches Ok((_, folder)) ==> folder@.wf(),
{
    proof {
        lemma_folder_wf(input@);
    }
    let (input, coders) = folder_coders(input)?;
    let total_out = match sum_out_streams(&coders) {
        None => {
            return Err(size_overflow_at(input));
        },
        Some(n) => n,
    };
    if total_out == 0 {
        return Err(
            SevenZParserError::new(SevenZParserErrorKind::StreamCountUnderflow, input.len()),
        );
    }
    let num_bind_pairs = total_out - 1;
    let (input, bind_pairs) = count_bind_pairs(input, num_bind_pairs)?;
    let total_in = match sum_in_streams(&coders) {
        None => {
            return Err(size_overflow_at(input));
        },
        Some(n) => n,
    };
    if total_in < num_bind_pairs {
        return Err(
            SevenZParserError::new(SevenZParserErrorKind::StreamCountUnderflow, input.len()),
        );
    }
    let num_packed_streams = total_in - num_bind_pairs;
    if num_packed_streams >= 1 {
        let (input, indices) = count_sevenz_uint64(input, num_packed_streams)?;
        Ok((input, Folder { coders, bind_pairs, packed_streams_indices: Some(indices) }))
    } else {
        Ok((input, Folder { coders, bind_pairs, packed_streams_indices: None }))
    }
}

/// Decodes `num_folders` folders.
pub fn take_folders(input: &[u8], num_folders: usize) -> (r: SevenZResult<Vec<Folder>>)
    ensures
        decodes_each(r, spec_take_folders(input@, num_folders as nat)),
{
    count(folder, num_folders, input, Ghost(folder_decoder()))
}

/// The output streams of `folders`, or `None` when they are more than
/// `usize::MAX`.
pub fn sum_folder_out_streams(folders: &Vec<Folder>) -> (r: Option<usize>)
    ensures
        match r {
            Some(n) => n == total_folder_out_streams(seq_view(folders@), folders@.len()),
            None => total_folder_out_streams(seq_view(folders@), folders@.len()) > usize::MAX,
        },
{
    let mut total: usize = 0;
    let mut i: usize = 0;
    while i < folders.len()
        invariant
            i <= folders@.len(),
            total == total_folder_out_streams(seq_view(folders@), i as nat),
        decreases folders@.len() - i,
    {
        proof {
            lemma_total_folder_out_streams_grows(
                seq_view(folders@),
                (i + 1) as nat,
                folders@.len(),
            );
        }
        let n = match sum_out_streams(&folders[i].coders) {
            None => {
                return None;
            },
            Some(n) => n,
        };
        if n > usize::MAX - total {
            return None;
        }
        total = total + n;
        i = i + 1;
    }
    Some(total)
}

/// Decodes the section that lists the folders.
pub fn coders_info<'a>(input: &'a [u8]) -> (r: SevenZResult<'a, CodersInfo>)
    ensures
        decodes(r, spec_coders_info(input@)),
        r matches Ok((_, info)) ==> info@.wf(),
{
    proof {
        lemma_coders_info_wf(input@);
    }
    mark_section(PropertyID::UnPackInfo, coders_info_fields(input))
}

fn coders_info_fields<'a>(input: &'a [u8]) -> (r: SevenZResult<'a, CodersInfo>)
    ensures
        decodes(r, spec_coders_info_fields(input@)),
{
    let (input, _) = tag_property_id(input, PropertyID::UnPackInfo)?;
    let (input, _) = tag_property_id(input, PropertyID::Folder)?;
    let (input, num_folders) = sevenz_uint64_as_usize(input)?;
    let (input, external) = bool_byte(input)?;
    let data_stream_index = |x: &'a [u8]| -> (index: SevenZResult<'a, u64>)
        ensures
            decodes(index, spec_sevenz_uint64(x@)),
        {
            sevenz_uint64(x)
        };
    let folders = |x: &'a [u8]| -> (folders: SevenZResult<'a, Vec<Folder>>)
        ensures
            decodes_each(folders, spec_take_folders(x@, num_folders as nat)),
        {
            take_folders(x, num_folders)
        };
    let (input, folders_or_data_stream_index) = either(
        external,
        data_stream_index,
        folders,
        input,
    )?;
    let (input, _) = tag_property_id(input, PropertyID::CodersUnPackSize)?;
    let folders = match folders_or_data_stream_index {
        Either::Left(_) => {
            return Err(
                SevenZParserError::new(
                    SevenZParserErrorKind::Unsupported(UnsupportedFeature::ExternalData),
                    input.len(),
                ),
            );
        },
        Either::Right(folders) => folders,
    };
    let num_total_out_streams = match sum_folder_out_streams(&folders) {
        None => {
            return Err(size_overflow_at(input));
        },
        Some(n) => n,
    };
    let (input, streams_unpack_sizes) = count_sevenz_uint64(input, num_total_out_streams)?;
    let (input, folders_unpack_digests) = tagged_le_u32s(input, PropertyID::CRC, num_folders)?;
    let (input, _) = tag_property_id(input, PropertyID::End)?;
    Ok(
        (
            input,
            CodersInfo {
                num_folders,
                folders_or_data_stream_index: Either::Right(folders),
                streams_unpack_sizes,
                folders_unpack_digests,
            },
        ),
    )
}

/// A coder leaves an end of its input.
pub proof fn lemma_coder_leaves_end(s: Seq<u8>)
    ensures
        leaves_end(spec_coder(s), s),
{
    lemma_fields_leave_end(s, 1);
    if let Ok((rest, props)) = spec_byte(s) {
        lemma_fields_leave_end(rest, id_len(props));
        lemma_leaves_end_of_end(spec_take(rest, id_len(props)), rest, s);
        if let Ok((rest, _)) = spec_take(rest, id_len(props)) {
            lemma_skip_is_end(rest, 0);
            assert(rest.skip(0) =~= rest);
            let complex: Decoded<Option<CoderComplex>> = if is_complex(props) {
                match spec_coder_complex(rest) {
                    Err(e) => Err(e),
                    Ok((rest, c)) => Ok((rest, Some(c))),
                }
            } else {
                Ok((rest, None))
            };
            lemma_sevenz_uint64_leaves_end(rest);
            if let Ok((mid, _)) = spec_sevenz_uint64(rest) {
                lemma_sevenz_uint64_leaves_end(mid);
                lemma_leaves_end_of_end(spec_sevenz_uint64(mid), mid, rest);
            }
            assert(leaves_end(complex, rest));
            lemma_leaves_end_of_end(complex, rest, s);
            if let Ok((rest, _)) = complex {
                lemma_sevenz_uint64_leaves_end(rest);
                if let Ok((mid, len)) = spec_sevenz_uint64_as_usize(rest) {
                    lemma_fields_leave_end(mid, len as nat);
                    lemma_leaves_end_of_end(spec_take(mid, len as nat), mid, rest);
                }
                lemma_leaves_end_of_end(spec_sized_bytes(rest), rest, s);
            }
        }
    }
}

/// A folder leaves an end of its input.
pub proof fn lemma_folder_leaves_end(s: Seq<u8>)
    ensures
        leaves_end(spec_folder(s), s),
{
    lemma_integers_leave_end();
    assert forall|x: Seq<u8>| leaves_end(#[trigger] coder_decoder()(x), x) by {
        lemma_coder_leaves_end(x);
    }
    assert forall|x: Seq<u8>| leaves_end(#[trigger] bind_pair_decoder()(x), x) by {
        lemma_sevenz_uint64_leaves_end(x);
        if let Ok((mid, _)) = spec_sevenz_uint64(x) {
            lemma_sevenz_uint64_leaves_end(mid);
            lemma_leaves_end_of_end(spec_sevenz_uint64(mid), mid, x);
        }
    }
    lemma_sevenz_uint64_leaves_end(s);
    if let Ok((rest, n)) = spec_sevenz_uint64_as_usize(s) {
        lemma_count_leaves_end(coder_decoder(), rest, n as nat);
        lemma_leaves_end_of_end(spec_count(coder_decoder(), rest, n as nat), rest, s);
    }
    if let Ok((rest, coders)) = spec_folder_coders(s) {
        let total_out = total_out_streams(coders, coders.len());
        let total_in = total_in_streams(coders, coders.len());
        if total_out > 0 {
            let pairs = spec_count(bind_pair_decoder(), rest, (total_out - 1) as nat);
            lemma_count_leaves_end(bind_pair_decoder(), rest, (total_out - 1) as nat);
            lemma_leaves_end_of_end(pairs, rest, s);
            if let Ok((rest, _)) = pairs {
                if total_in > total_out - 1 {
                    let n = (total_in - (total_out - 1)) as nat;
                    lemma_count_leaves_end(sevenz_uint64_decoder(), rest, n);
                    lemma_leaves_end_of_end(spec_count_sevenz_uint64(rest, n), rest, s);
                }
            }
        }
    }
}

/// The section on folders leaves an end of its input.
pub proof fn lemma_coders_info_leaves_end(s: Seq<u8>)
    ensures
        leaves_end(spec_coders_info(s), s),
{
    lemma_integers_leave_end();
    assert forall|x: Seq<u8>| leaves_end(#[trigger] folder_decoder()(x), x) by {
        lemma_folder_leaves_end(x);
    }
    lemma_markers_leave_end(s, PropertyID::UnPackInfo);
    if let Ok((r1, _)) = spec_tag_property_id(s, PropertyID::UnPackInfo) {
        lemma_markers_leave_end(r1, PropertyID::Folder);
        lemma_leaves_end_of_end(spec_tag_property_id(r1, PropertyID::Folder), r1, s);
        if let Ok((r2, _)) = spec_tag_property_id(r1, PropertyID::Folder) {
            lemma_sevenz_uint64_leaves_end(r2);
            lemma_leaves_end_of_end(spec_sevenz_uint64_as_usize(r2), r2, s);
            if let Ok((r3, num_folders)) = spec_sevenz_uint64_as_usize(r2) {
                lemma_markers_leave_end(r3, PropertyID::End);
                lemma_leaves_end_of_end(spec_bool_byte(r3), r3, s);
                if let Ok((r4, external)) = spec_bool_byte(r3) {
                    lemma_count_leaves_end(folder_decoder(), r4, num_folders as nat);
                    let taken = spec_take_folders(r4, num_folders as nat);
                    lemma_leaves_end_of_end(taken, r4, s);
                    if let Ok((r5, folders)) = taken {
                        lemma_markers_leave_end(r5, PropertyID::CodersUnPackSize);
                        let tag = spec_tag_property_id(r5, PropertyID::CodersUnPackSize);
                        lemma_leaves_end_of_end(tag, r5, s);
                        if let Ok((r6, _)) = tag {
                            let total = total_folder_out_streams(folders, folders.len());
                            lemma_count_leaves_end(sevenz_uint64_decoder(), r6, total);
                            let sizes = spec_count_sevenz_uint64(r6, total);
                            lemma_leaves_end_of_end(sizes, r6, s);
                            if let Ok((r7, _)) = sizes {
                                lemma_tagged_leave_end(r7, PropertyID::CRC, num_folders as nat);
                                let digests = spec_tagged_le_u32s(
                                    r7,
                                    PropertyID::CRC,
                                    num_folders as nat,
                                );
                                lemma_leaves_end_of_end(digests, r7, s);
                                if let Ok((r8, _)) = digests {
                                    lemma_markers_leave_end(r8, PropertyID::End);
                                    lemma_leaves_end_of_end(
                                        spec_tag_property_id(r8, PropertyID::End),
                                        r8,
                                        s,
                                    );
                                }
                            }
                        }
                    }
                }
            }
        }
    }
}

/// A coder is decoded within its input.
pub proof fn lemma_coder_in_bounds(s: Seq<u8>)
    ensures
        in_bounds(spec_coder(s), s),
{
}

/// A folder is decoded within its input.
pub proof fn lemma_folder_in_bounds(s: Seq<u8>)
    ensures
        in_bounds(spec_folder(s), s),
{
    lemma_integers_in_bounds();
    assert forall|x: Seq<u8>| in_bounds(#[trigger] coder_decoder()(x), x) by {
        lemma_coder_in_bounds(x);
    }
    assert forall|x: Seq<u8>| in_bounds(#[trigger] bind_pair_decoder()(x), x) by {}
    if let Ok((rest, n)) = spec_sevenz_uint64_as_usize(s) {
        lemma_count_in_bounds(coder_decoder(), rest, n as nat);
    }
    if let Ok((rest, coders)) = spec_folder_coders(s) {
        let total_out = total_out_streams(coders, coders.len());
        let total_in = total_in_streams(coders, coders.len());
        if total_out > 0 {
            lemma_count_in_bounds(bind_pair_decoder(), rest, (total_out - 1) as nat);
            if let Ok((rest, _)) = spec_count(bind_pair_decoder(), rest, (total_out - 1) as nat) {
                if total_in > total_out - 1 {
                    lemma_count_in_bounds(
                        sevenz_uint64_decoder(),
                        rest,
                        (total_in - (total_out - 1)) as nat,
                    );
                }
            }
        }
    }
}

/// The section on folders is decoded within its input.
pub proof fn lemma_coders_info_in_bounds(s: Seq<u8>)
    ensures
        in_bounds(spec_coders_info(s), s),
{
    lemma_integers_in_bounds();
    assert forall|x: Seq<u8>| in_bounds(#[trigger] folder_decoder()(x), x) by {
        lemma_folder_in_bounds(x);
    }
    if let Ok((rest, _)) = spec_tag_property_id(s, PropertyID::UnPackInfo) {
        if let Ok((rest, _)) = spec_tag_property_id(rest, PropertyID::Folder) {
            if let Ok((rest, num_folders)) = spec_sevenz_uint64_as_usize(rest) {
                if let Ok((rest, external)) = spec_bool_byte(rest) {
                    lemma_count_in_bounds(folder_decoder(), rest, num_folders as nat);
                    if let Ok((rest, folders)) = spec_take_folders(rest, num_folders as nat) {
                        if let Ok((rest, _)) = spec_tag_property_id(
                            rest,
                            PropertyID::CodersUnPackSize,
                        ) {
                            let total = total_folder_out_streams(folders, folders.len());
                            lemma_count_in_bounds(sevenz_uint64_decoder(), rest, total);
                            if let Ok((rest, _)) = spec_count_sevenz_uint64(rest, total) {
                                if spec_has_tag(rest, PropertyID::CRC) {
                                    lemma_count_in_bounds(
                                        le_u32_decoder(),
                                        rest.skip(1),
                                        num_folders as nat,
                                    );
                                }
                            }
                        }
                    }
                }
            }
        }
    }
}

/// A folder that is decoded is well-formed.
pub proof fn lemma_folder_wf(s: Seq<u8>)
    ensures
        spec_folder(s) matches Ok((_, folder)) ==> folder.wf(),
{
    if let Ok((rest, coders)) = spec_folder_coders(s) {
        let total_out = total_out_streams(coders, coders.len());
        let total_in = total_in_streams(coders, coders.len());
        if 0 < total_out <= usize::MAX {
            lemma_count_len(bind_pair_decoder(), rest, (total_out - 1) as nat);
            if let Ok((rest, _)) = spec_count(bind_pair_decoder(), rest, (total_out - 1) as nat) {
                if total_out - 1 < total_in <= usize::MAX {
                    lemma_count_len(
                        sevenz_uint64_decoder(),
                        rest,
                        (total_in - (total_out - 1)) as nat,
                    );
                }
            }
        }
    }
}

/// A folder whose only coder has one input and one output stream has no
/// bind pairs and exactly one packed stream.
pub proof fn lemma_folder_of_one_simple_coder(s: Seq<u8>)
    ensures
        spec_folder(s) matches Ok((_, folder)) ==> (folder.coders.len() == 1
            && folder.coders[0].complex is None ==> folder.bind_pairs.len() == 0
            && folder.packed_streams_indices is Some
            && folder.packed_streams_indices->0.len() == 1),
{
    lemma_folder_wf(s);
    if let Ok((_, folder)) = spec_folder(s) {
        if folder.coders.len() == 1 && folder.coders[0].complex is None {
            reveal_with_fuel(total_out_streams, 2);
            reveal_with_fuel(total_in_streams, 2);
            assert(folder.total_out() == 1);
            assert(folder.total_in() == 1);
        }
    }
}

/// A section on folders that is decoded is well-formed.
pub proof fn lemma_coders_info_wf(s: Seq<u8>)
    ensures
        spec_coders_info(s) matches Ok((_, info)) ==> info.wf(),
{
    if let Ok((_, info)) = spec_coders_info(s) {
        let rest = spec_tag_property_id(s, PropertyID::UnPackInfo)->Ok_0.0;
        let rest = spec_tag_property_id(rest, PropertyID::Folder)->Ok_0.0;
        let (rest, num_folders) = spec_sevenz_uint64_as_usize(rest)->Ok_0;
        let rest = spec_bool_byte(rest)->Ok_0.0;
        lemma_count_len(folder_decoder(), rest, num_folders as nat);
        assert forall|x: Seq<u8>| (#[trigger] folder_decoder()(x)) matches Ok((_, folder))
            ==> folder.wf() by {
            lemma_folder_wf(x);
        }
        lemma_count_all(
            folder_decoder(),
            rest,
            num_folders as nat,
            |folder: FolderView| folder.wf(),
        );
        let (rest, folders) = spec_take_folders(rest, num_folders as nat)->Ok_0;
        let rest = spec_tag_property_id(rest, PropertyID::CodersUnPackSize)->Ok_0.0;
        let total = total_folder_out_streams(folders, folders.len());
        lemma_count_len(sevenz_uint64_decoder(), rest, total);
        let rest = spec_count_sevenz_uint64(rest, total)->Ok_0.0;
        if spec_has_tag(rest, PropertyID::CRC) {
            lemma_count_len(le_u32_decoder(), rest.skip(1), num_folders as nat);
        }
    }
}

} // verus!

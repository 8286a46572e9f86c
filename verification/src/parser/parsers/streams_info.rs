//! The sections that describe streams: packed streams, substreams, and the
//! section that holds them together with the folders.

use crate::parser::combinators::{has_tag, spec_has_tag};
use crate::parser::err::{
    decodes, fail_at, in_bounds, in_section, leaves_end, lemma_leaves_end_of_end,
    lemma_skip_is_end, mark_section, Decoded, SevenZParserError, SevenZParserErrorKind,
    SevenZResult,
};
use crate::parser::combinators::{
    lemma_count_in_bounds, lemma_count_leaves_end, lemma_count_len,
};
use crate::parser::parsers::coders_info::{
    coders_info, lemma_coders_info_in_bounds, lemma_coders_info_leaves_end,
    lemma_coders_info_wf, size_overflow, spec_coders_info,
};
use crate::parser::parsers::{
    le_u32_decoder, lemma_integers_in_bounds, lemma_integers_leave_end,
    lemma_markers_leave_end, lemma_tagged_leave_end, sevenz_uint64_decoder,
};
use crate::parser::parsers::sevenz_uint64::{
    lemma_sevenz_uint64_leaves_end, sevenz_uint64, sevenz_uint64_as_usize, spec_sevenz_uint64,
    spec_sevenz_uint64_as_usize,
};
use crate::parser::parsers::{
    count_sevenz_uint64, spec_count_sevenz_uint64, spec_tag_property_id, spec_tagged_le_u32s,
    spec_tagged_sevenz_uint64s, tag_property_id, tagged_le_u32s, tagged_sevenz_uint64s,
};
use crate::parser::types::coders_info::CodersInfoView;
use crate::parser::types::property_id::PropertyID;
use crate::parser::types::streams_info::{
    StreamsInfo, StreamsInfoView, SubStreamsInfo, SubStreamsInfoView,
};
use crate::parser::types::{PackInfo, PackInfoView};
use vstd::prelude::*;
use vstd::slice::slice_subrange;

verus! {

/// The section on packed streams: the marker `PackInfo`, the position of
/// the first stream, the number of streams, a size for each if the marker
/// `Size` is there, a checksum for each if the marker `CRC` is there, and
/// the marker `End`.
pub open spec fn spec_pack_info(s: Seq<u8>) -> Decoded<PackInfoView> {
    in_section(PropertyID::PackInfo, spec_pack_info_fields(s))
}

/// The fields of the section, with errors as they are before they are
/// marked as the section's.
pub open spec fn spec_pack_info_fields(s: Seq<u8>) -> Decoded<PackInfoView> {
    match spec_tag_property_id(s, PropertyID::PackInfo) {
        Err(e) => Err(e),
        Ok((rest, _)) => match spec_sevenz_uint64(rest) {
            Err(e) => Err(e),
            Ok((rest, pack_pos)) => match spec_sevenz_uint64_as_usize(rest) {
                Err(e) => Err(e),
                Ok((rest, num_pack_streams)) => match spec_tagged_sevenz_uint64s(
                    rest,
                    PropertyID::Size,
                    num_pack_streams as nat,
                ) {
                    Err(e) => Err(e),
                    Ok((rest, sizes)) => match spec_tagged_le_u32s(
                        rest,
                        PropertyID::CRC,
                        num_pack_streams as nat,
                    ) {
                        Err(e) => Err(e),
                        Ok((rest, crcs)) => match spec_tag_property_id(rest, PropertyID::End) {
                            Err(e) => Err(e),
                            Ok((rest, _)) => Ok(
                                (rest, PackInfoView { pack_pos, num_pack_streams, sizes, crcs }),
                            ),
                        },
                    },
                },
            },
        },
    }
}

/// The sum of the first `n` of `counts`.
pub open spec fn sum_counts(counts: Seq<u64>, n: nat) -> nat
    decreases n,
{
    if n == 0 {
        0
    } else {
        sum_counts(counts, (n - 1) as nat) + counts[n - 1] as nat
    }
}

/// The sizes of the substreams, if the marker `Size` is there: as many as
/// the folders have substreams in all. Without the counts of the folders
/// their number cannot be determined; beyond `usize::MAX` it is a size
/// overflow. Both are reported at the marker.
pub open spec fn spec_unpack_sizes(s: Seq<u8>, counts: Option<Seq<u64>>) -> Decoded<
    Option<Seq<u64>>,
> {
    if spec_has_tag(s, PropertyID::Size) {
        match counts {
            None => Err(fail_at(SevenZParserErrorKind::CouldNotDetermineNumUnpackStreams, s)),
            Some(counts) => if sum_counts(counts, counts.len()) > usize::MAX {
                Err(size_overflow(s))
            } else {
                match spec_count_sevenz_uint64(s.skip(1), sum_counts(counts, counts.len())) {
                    Err(e) => Err(e),
                    Ok((rest, sizes)) => Ok((rest, Some(sizes))),
                }
            },
        }
    } else {
        Ok((s, None))
    }
}

/// The section on substreams: the marker `SubStreamsInfo`; behind the
/// marker `NumUnPackStream`, if it is there, the number of substreams of
/// each of the `num_folders` folders; the sizes of the substreams;
/// `num_unknown_crcs` checksums behind the marker `CRC`, if it is there; and
/// the marker `End`.
pub open spec fn spec_substreams_info(
    s: Seq<u8>,
    num_folders: nat,
    num_unknown_crcs: nat,
) -> Decoded<SubStreamsInfoView> {
    in_section(
        PropertyID::SubStreamsInfo,
        spec_substreams_info_fields(s, num_folders, num_unknown_crcs),
    )
}

/// The fields of the section, with errors as they are before they are
/// marked as the section's.
pub open spec fn spec_substreams_info_fields(
    s: Seq<u8>,
    num_folders: nat,
    num_unknown_crcs: nat,
) -> Decoded<SubStreamsInfoView> {
    match spec_tag_property_id(s, PropertyID::SubStreamsInfo) {
        Err(e) => Err(e),
        Ok((rest, _)) => match spec_tagged_sevenz_uint64s(
            rest,
            PropertyID::NumUnPackStream,
            num_folders,
        ) {
            Err(e) => Err(e),
            Ok((rest, num_unpack_streams_in_folders)) => match spec_unpack_sizes(
                rest,
                num_unpack_streams_in_folders,
            ) {
                Err(e) => Err(e),
                Ok((rest, unpack_sizes)) => match spec_tagged_le_u32s(
                    rest,
                    PropertyID::CRC,
                    num_unknown_crcs,
                ) {
                    Err(e) => Err(e),
                    Ok((rest, unknown_digests)) => match spec_tag_property_id(
                        rest,
                        PropertyID::End,
                    ) {
                        Err(e) => Err(e),
                        Ok((rest, _)) => Ok(
                            (
                                rest,
                                SubStreamsInfoView {
                                    num_unpack_streams_in_folders,
                                    unpack_sizes,
                                    unknown_digests,
                                },
                            ),
                        ),
                    },
                },
            },
        },
    }
}

/// The section on packed streams, if `s` begins with its marker.
pub open spec fn spec_opt_pack_info(s: Seq<u8>) -> Decoded<Option<PackInfoView>> {
    if spec_has_tag(s, PropertyID::PackInfo) {
        match spec_pack_info(s) {
            Err(e) => Err(e),
            Ok((rest, info)) => Ok((rest, Some(info))),
        }
    } else {
        Ok((s, None))
    }
}

/// The section on folders, if `s` begins with its marker.
pub open spec fn spec_opt_coders_info(s: Seq<u8>) -> Decoded<Option<CodersInfoView>> {
    if spec_has_tag(s, PropertyID::UnPackInfo) {
        match spec_coders_info(s) {
            Err(e) => Err(e),
            Ok((rest, info)) => Ok((rest, Some(info))),
        }
    } else {
        Ok((s, None))
    }
}

/// The number of folders that a section on streams speaks of: that of its
/// own section on folders, or else the one handed in.
pub open spec fn known_num_folders(
    coders_info: Option<CodersInfoView>,
    num_folders: Option<usize>,
) -> Option<usize> {
    match coders_info {
        Some(info) => Some(info.num_folders),
        None => num_folders,
    }
}

/// The number of folders without a digest of their own: none where the
/// section on folders holds digests, all of them otherwise.
pub open spec fn num_unknown_crcs(
    coders_info: Option<CodersInfoView>,
    num_folders: usize,
) -> usize {
    match coders_info {
        Some(info) => if info.folders_unpack_digests is Some {
            0
        } else {
            num_folders
        },
        None => num_folders,
    }
}

/// The section on streams, behind its marker: the sections on packed
/// streams, on folders and on substreams, each if its marker is there, and
/// the marker `End`.
///
/// The number of folders has to be known before the section on substreams
/// is looked for, from the section on folders or else from `num_folders`,
/// which a caller passes who has decoded such a section before.
pub open spec fn spec_streams_info(s: Seq<u8>, num_folders: Option<usize>) -> Decoded<
    StreamsInfoView,
> {
    match spec_opt_pack_info(s) {
        Err(e) => Err(e),
        Ok((rest, pack_info)) => match spec_opt_coders_info(rest) {
            Err(e) => Err(e),
            Ok((rest, coders_info)) => match known_num_folders(coders_info, num_folders) {
                None => Err(fail_at(SevenZParserErrorKind::CouldNotDetermineNumFolders, rest)),
                Some(n) => {
                    let substreams = if spec_has_tag(rest, PropertyID::SubStreamsInfo) {
                        match spec_substreams_info(
                            rest,
                            n as nat,
                            num_unknown_crcs(coders_info, n) as nat,
                        ) {
                            Err(e) => Err(e),
                            Ok((rest, info)) => Ok((rest, Some(info))),
                        }
                    } else {
                        Ok((rest, None))
                    };
                    match substreams {
                        Err(e) => Err(e),
                        Ok((rest, substreams_info)) => match spec_tag_property_id(
                            rest,
                            PropertyID::End,
                        ) {
                            Err(e) => Err(e),
                            Ok((rest, _)) => Ok(
                                (rest, StreamsInfoView { pack_info, coders_info, substreams_info }),
                            ),
                        },
                    }
                },
            },
        },
    }
}

/// The section on packed streams leaves an end of its input.
pub proof fn lemma_pack_info_leaves_end(s: Seq<u8>)
    ensures
        leaves_end(spec_pack_info(s), s),
{
    lemma_markers_leave_end(s, PropertyID::PackInfo);
    if let Ok((r1, _)) = spec_tag_property_id(s, PropertyID::PackInfo) {
        lemma_sevenz_uint64_leaves_end(r1);
        lemma_leaves_end_of_end(spec_sevenz_uint64(r1), r1, s);
        if let Ok((r2, _)) = spec_sevenz_uint64(r1) {
            lemma_sevenz_uint64_leaves_end(r2);
            lemma_leaves_end_of_end(spec_sevenz_uint64_as_usize(r2), r2, s);
            if let Ok((r3, n)) = spec_sevenz_uint64_as_usize(r2) {
                let sizes = spec_tagged_sevenz_uint64s(r3, PropertyID::Size, n as nat);
                lemma_tagged_leave_end(r3, PropertyID::Size, n as nat);
                lemma_leaves_end_of_end(sizes, r3, s);
                if let Ok((r4, _)) = sizes {
                    let crcs = spec_tagged_le_u32s(r4, PropertyID::CRC, n as nat);
                    lemma_tagged_leave_end(r4, PropertyID::CRC, n as nat);
                    lemma_leaves_end_of_end(crcs, r4, s);
                    if let Ok((r5, _)) = crcs {
                        lemma_markers_leave_end(r5, PropertyID::End);
                        lemma_leaves_end_of_end(
                            spec_tag_property_id(r5, PropertyID::End),
                            r5,
                            s,
                        );
                    }
                }
            }
        }
    }
}

/// The sizes of the substreams leave an end of their input.
pub proof fn lemma_unpack_sizes_leaves_end(s: Seq<u8>, counts: Option<Seq<u64>>)
    ensures
        leaves_end(spec_unpack_sizes(s, counts), s),
{
    lemma_integers_leave_end();
    if spec_has_tag(s, PropertyID::Size) {
        if let Some(counts) = counts {
            let n = sum_counts(counts, counts.len());
            lemma_skip_is_end(s, 1);
            lemma_count_leaves_end(sevenz_uint64_decoder(), s.skip(1), n);
            lemma_leaves_end_of_end(spec_count_sevenz_uint64(s.skip(1), n), s.skip(1), s);
        }
    } else {
        lemma_skip_is_end(s, 0);
        assert(s.skip(0) =~= s);
    }
}

/// The section on substreams leaves an end of its input.
pub proof fn lemma_substreams_info_leaves_end(
    s: Seq<u8>,
    num_folders: nat,
    num_unknown_crcs: nat,
)
    ensures
        leaves_end(spec_substreams_info(s, num_folders, num_unknown_crcs), s),
{
    lemma_markers_leave_end(s, PropertyID::SubStreamsInfo);
    if let Ok((r1, _)) = spec_tag_property_id(s, PropertyID::SubStreamsInfo) {
        let counts = spec_tagged_sevenz_uint64s(r1, PropertyID::NumUnPackStream, num_folders);
        lemma_tagged_leave_end(r1, PropertyID::NumUnPackStream, num_folders);
        lemma_leaves_end_of_end(counts, r1, s);
        if let Ok((r2, counts)) = counts {
            lemma_unpack_sizes_leaves_end(r2, counts);
            lemma_leaves_end_of_end(spec_unpack_sizes(r2, counts), r2, s);
            if let Ok((r3, _)) = spec_unpack_sizes(r2, counts) {
                let digests = spec_tagged_le_u32s(r3, PropertyID::CRC, num_unknown_crcs);
                lemma_tagged_leave_end(r3, PropertyID::CRC, num_unknown_crcs);
                lemma_leaves_end_of_end(digests, r3, s);
                if let Ok((r4, _)) = digests {
                    lemma_markers_leave_end(r4, PropertyID::End);
                    lemma_leaves_end_of_end(spec_tag_property_id(r4, PropertyID::End), r4, s);
                }
            }
        }
    }
}

/// A section on streams leaves an end of its input.
pub proof fn lemma_streams_info_leaves_end(s: Seq<u8>, num_folders: Option<usize>)
    ensures
        leaves_end(spec_streams_info(s, num_folders), s),
{
    lemma_pack_info_leaves_end(s);
    lemma_skip_is_end(s, 0);
    assert(s.skip(0) =~= s);
    if let Ok((r1, _)) = spec_opt_pack_info(s) {
        lemma_coders_info_leaves_end(r1);
        lemma_skip_is_end(r1, 0);
        assert(r1.skip(0) =~= r1);
        lemma_leaves_end_of_end(spec_opt_coders_info(r1), r1, s);
        if let Ok((r2, coders_info)) = spec_opt_coders_info(r1) {
            if let Some(n) = known_num_folders(coders_info, num_folders) {
                let unknown = num_unknown_crcs(coders_info, n) as nat;
                lemma_substreams_info_leaves_end(r2, n as nat, unknown);
                let substreams: Decoded<Option<SubStreamsInfoView>> = if spec_has_tag(
                    r2,
                    PropertyID::SubStreamsInfo,
                ) {
                    match spec_substreams_info(r2, n as nat, unknown) {
                        Err(e) => Err(e),
                        Ok((rest, info)) => Ok((rest, Some(info))),
                    }
                } else {
                    Ok((r2, None))
                };
                lemma_skip_is_end(r2, 0);
                assert(r2.skip(0) =~= r2);
                lemma_leaves_end_of_end(substreams, r2, s);
                if let Ok((r3, _)) = substreams {
                    lemma_markers_leave_end(r3, PropertyID::End);
                    lemma_leaves_end_of_end(spec_tag_property_id(r3, PropertyID::End), r3, s);
                }
            }
        }
    }
}

/// The section on packed streams is decoded within its input.
pub proof fn lemma_pack_info_in_bounds(s: Seq<u8>)
    ensures
        in_bounds(spec_pack_info(s), s),
{
    lemma_integers_in_bounds();
    if let Ok((rest, _)) = spec_tag_property_id(s, PropertyID::PackInfo) {
        if let Ok((rest, _)) = spec_sevenz_uint64(rest) {
            if let Ok((rest, n)) = spec_sevenz_uint64_as_usize(rest) {
                if spec_has_tag(rest, PropertyID::Size) {
                    lemma_count_in_bounds(sevenz_uint64_decoder(), rest.skip(1), n as nat);
                }
                if let Ok((rest, _)) = spec_tagged_sevenz_uint64s(
                    rest,
                    PropertyID::Size,
                    n as nat,
                ) {
                    if spec_has_tag(rest, PropertyID::CRC) {
                        lemma_count_in_bounds(le_u32_decoder(), rest.skip(1), n as nat);
                    }
                }
            }
        }
    }
}

/// The section on substreams is decoded within its input.
pub proof fn lemma_substreams_info_in_bounds(s: Seq<u8>, num_folders: nat, num_unknown_crcs: nat)
    ensures
        in_bounds(spec_substreams_info(s, num_folders, num_unknown_crcs), s),
{
    lemma_integers_in_bounds();
    if let Ok((rest, _)) = spec_tag_property_id(s, PropertyID::SubStreamsInfo) {
        if spec_has_tag(rest, PropertyID::NumUnPackStream) {
            lemma_count_in_bounds(sevenz_uint64_decoder(), rest.skip(1), num_folders);
        }
        if let Ok((rest, counts)) = spec_tagged_sevenz_uint64s(
            rest,
            PropertyID::NumUnPackStream,
            num_folders,
        ) {
            if let Some(counts) = counts {
                lemma_count_in_bounds(
                    sevenz_uint64_decoder(),
                    rest.skip(1),
                    sum_counts(counts, counts.len()),
                );
            }
            if let Ok((rest, _)) = spec_unpack_sizes(rest, counts) {
                if spec_has_tag(rest, PropertyID::CRC) {
                    lemma_count_in_bounds(le_u32_decoder(), rest.skip(1), num_unknown_crcs);
                }
            }
        }
    }
}

/// A section on streams is decoded within its input.
pub proof fn lemma_streams_info_in_bounds(s: Seq<u8>, num_folders: Option<usize>)
    ensures
        in_bounds(spec_streams_info(s, num_folders), s),
{
    lemma_pack_info_in_bounds(s);
    if let Ok((rest, _)) = spec_opt_pack_info(s) {
        lemma_coders_info_in_bounds(rest);
        if let Ok((rest, coders_info)) = spec_opt_coders_info(rest) {
            if let Some(n) = known_num_folders(coders_info, num_folders) {
                lemma_substreams_info_in_bounds(
                    rest,
                    n as nat,
                    num_unknown_crcs(coders_info, n) as nat,
                );
            }
        }
    }
}

/// A section on packed streams that is decoded is well-formed.
pub proof fn lemma_pack_info_wf(s: Seq<u8>)
    ensures
        spec_pack_info(s) matches Ok((_, info)) ==> info.wf(),
{
    if let Ok((rest, _)) = spec_tag_property_id(s, PropertyID::PackInfo) {
        if let Ok((rest, _)) = spec_sevenz_uint64(rest) {
            if let Ok((rest, n)) = spec_sevenz_uint64_as_usize(rest) {
                if spec_has_tag(rest, PropertyID::Size) {
                    lemma_count_len(sevenz_uint64_decoder(), rest.skip(1), n as nat);
                }
                if let Ok((rest, _)) = spec_tagged_sevenz_uint64s(
                    rest,
                    PropertyID::Size,
                    n as nat,
                ) {
                    if spec_has_tag(rest, PropertyID::CRC) {
                        lemma_count_len(le_u32_decoder(), rest.skip(1), n as nat);
                    }
                }
            }
        }
    }
}

/// A section on streams that is decoded is well-formed.
pub proof fn lemma_streams_info_wf(s: Seq<u8>, num_folders: Option<usize>)
    ensures
        spec_streams_info(s, num_folders) matches Ok((_, info)) ==> info.wf(),
{
    lemma_pack_info_wf(s);
    if let Ok((rest, _)) = spec_opt_pack_info(s) {
        lemma_coders_info_wf(rest);
    }
}

/// Decodes the section on packed streams.
pub fn pack_info(input: &[u8]) -> (r: SevenZResult<PackInfo>)
    ensures
        decodes(r, spec_pack_info(input@)),
        r matches Ok((_, info)) ==> info@.wf(),
{
    proof {
        lemma_pack_info_wf(input@);
    }
    mark_section(PropertyID::PackInfo, pack_info_fields(input))
}

fn pack_info_fields(input: &[u8]) -> (r: SevenZResult<PackInfo>)
    ensures
        decodes(r, spec_pack_info_fields(input@)),
{
    let (input, _) = tag_property_id(input, PropertyID::PackInfo)?;
    let (input, pack_pos) = sevenz_uint64(input)?;
    let (input, num_pack_streams) = sevenz_uint64_as_usize(input)?;
    let (input, sizes) = tagged_sevenz_uint64s(input, PropertyID::Size, num_pack_streams)?;
    let (input, crcs) = tagged_le_u32s(input, PropertyID::CRC, num_pack_streams)?;
    let (input, _) = tag_property_id(input, PropertyID::End)?;
    Ok((input, PackInfo { pack_pos, num_pack_streams, sizes, crcs }))
}

proof fn lemma_sum_counts_grows(counts: Seq<u64>, m: nat, n: nat)
    requires
        m <= n,
    ensures
        sum_counts(counts, m) <= sum_counts(counts, n),
    decreases n,
{
    if m < n {
        lemma_sum_counts_grows(counts, m, (n - 1) as nat);
    }
}

/// The sum of `counts`, or `None` when it is more than `usize::MAX`.
fn sum_of_counts(counts: &Vec<u64>) -> (r: Option<usize>)
    ensures
        match r {
            Some(n) => n == sum_counts(counts@, counts@.len()),
            None => sum_counts(counts@, counts@.len()) > usize::MAX,
        },
{
    let mut total: usize = 0;
    let mut i: usize = 0;
    while i < counts.len()
        invariant
            i <= counts@.len(),
            total == sum_counts(counts@, i as nat),
        decreases counts@.len() - i,
    {
        let n = counts[i];
        if n > (usize::MAX - total) as u64 {
            proof {
                lemma_sum_counts_grows(counts@, (i + 1) as nat, counts@.len());
            }
            return None;
        }
        total = total + n as usize;
        i = i + 1;
    }
    Some(total)
}

fn unpack_sizes<'a>(input: &'a [u8], counts: &Option<Vec<u64>>) -> (r: SevenZResult<
    'a,
    Option<Vec<u64>>,
>)
    ensures
        match (r, spec_unpack_sizes(input@, crate::parser::types::opt_view(*counts))) {
            (Ok((rest, Some(sizes))), Ok((srest, Some(ssizes)))) => rest@ == srest && sizes@
                == ssizes,
            (Ok((rest, None)), Ok((srest, None))) => rest@ == srest,
            (Err(e), Err(se)) => e == se,
            _ => false,
        },
{
    if !has_tag(input, PropertyID::Size) {
        return Ok((input, None));
    }
    let counts = match counts {
        None => {
            return Err(
                SevenZParserError::new(
                    SevenZParserErrorKind::CouldNotDetermineNumUnpackStreams,
                    input.len(),
                ),
            );
        },
        Some(counts) => counts,
    };
    let total_streams = match sum_of_counts(counts) {
        None => {
            return Err(
                SevenZParserError::new(
                    SevenZParserErrorKind::ConversionFailure(
                        crate::parser::err::SevenZConversionError::ToUsize,
                    ),
                    input.len(),
                ),
            );
        },
        Some(n) => n,
    };
    let (rest, sizes) = count_sevenz_uint64(
        slice_subrange(input, 1, input.len()),
        total_streams,
    )?;
    Ok((rest, Some(sizes)))
}

/// Decodes the section on substreams, for `num_folders` folders of which
/// `num_unknown_crcs` carry no digest of their own.
pub fn substreams_info(input: &[u8], num_folders: usize, num_unknown_crcs: usize) -> (r:
    SevenZResult<SubStreamsInfo>)
    ensures
        decodes(r, spec_substreams_info(input@, num_folders as nat, num_unknown_crcs as nat)),
{
    mark_section(
        PropertyID::SubStreamsInfo,
        substreams_info_fields(input, num_folders, num_unknown_crcs),
    )
}

fn substreams_info_fields(input: &[u8], num_folders: usize, num_unknown_crcs: usize) -> (r:
    SevenZResult<SubStreamsInfo>)
    ensures
        decodes(
            r,
            spec_substreams_info_fields(input@, num_folders as nat, num_unknown_crcs as nat),
        ),
{
    let (input, _) = tag_property_id(input, PropertyID::SubStreamsInfo)?;
    let (input, num_unpack_streams_in_folders) = tagged_sevenz_uint64s(
        input,
        PropertyID::NumUnPackStream,
        num_folders,
    )?;
    let (input, unpack_sizes) = unpack_sizes(input, &num_unpack_streams_in_folders)?;
    let (input, unknown_digests) = tagged_le_u32s(input, PropertyID::CRC, num_unknown_crcs)?;
    let (input, _) = tag_property_id(input, PropertyID::End)?;
    Ok((input, SubStreamsInfo { num_unpack_streams_in_folders, unpack_sizes, unknown_digests }))
}

/// Decodes a section on streams, behind its marker. `num_folders` is the
/// number of folders of a section on streams decoded before, if there was
/// one.
pub fn streams_info(input: &[u8], num_folders: Option<usize>) -> (r: SevenZResult<StreamsInfo>)
    ensures
        decodes(r, spec_streams_info(input@, num_folders)),
        r matches Ok((_, info)) ==> info@.wf(),
{
    proof {
        lemma_streams_info_wf(input@, num_folders);
    }
    let (input, pack_info_data) = if has_tag(input, PropertyID::PackInfo) {
        let (input, info) = pack_info(input)?;
        (input, Some(info))
    } else {
        (input, None)
    };
    let (input, coders_info_data) = if has_tag(input, PropertyID::UnPackInfo) {
        let (input, info) = coders_info(input)?;
        (input, Some(info))
    } else {
        (input, None)
    };
    let (num_folders, num_unknown_crcs) = match &coders_info_data {
        Some(info) => (
            info.num_folders,
            if info.folders_unpack_digests.is_some() {
                0
            } else {
                info.num_folders
            },
        ),
        None => match num_folders {
            Some(n) => (n, n),
            None => {
                return Err(
                    SevenZParserError::new(
                        SevenZParserErrorKind::CouldNotDetermineNumFolders,
                        input.len(),
                    ),
                );
            },
        },
    };
    let (input, substreams_info_data) = if has_tag(input, PropertyID::SubStreamsInfo) {
        let (input, info) = substreams_info(input, num_folders, num_unknown_crcs)?;
        (input, Some(info))
    } else {
        (input, None)
    };
    let (input, _) = tag_property_id(input, PropertyID::End)?;
    Ok(
        (
            input,
            StreamsInfo {
                pack_info: pack_info_data,
                coders_info: coders_info_data,
                substreams_info: substreams_info_data,
            },
        ),
    )
}

} // verus!

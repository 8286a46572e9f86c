//! The header, and the archive as a whole.

use crate::parser::combinators::{
    has_tag, lemma_with_prefix_empty, lemma_with_prefix_push, spec_has_tag, with_prefix,
};
use crate::parser::crc::{crc32_iso_hdlc, sevenz_crc, verify};
use crate::parser::err::{
    decodes, fail_at, in_bounds, in_section, leaves_end, lemma_end_of_end,
    lemma_leaves_end_of_end, lemma_skip_is_end, mark_section, Decoded, SevenZParserError,
    SevenZParserErrorKind, SevenZResult, UnsupportedFeature,
};
use crate::parser::parsers::bytes::{lemma_fields_leave_end, spec_take, take};
use crate::parser::parsers::files_info::{
    files_info, lemma_files_info_in_bounds, lemma_files_info_leaves_end, lemma_files_info_wf,
    spec_files_info,
};
use crate::parser::parsers::sevenz_uint64::{
    lemma_sevenz_uint64_leaves_end, sevenz_uint64_as_usize, spec_sevenz_uint64_as_usize,
};
use crate::parser::parsers::streams_info::{
    lemma_streams_info_in_bounds, lemma_streams_info_leaves_end, lemma_streams_info_wf,
    spec_streams_info, streams_info,
};
use crate::parser::parsers::{
    lemma_markers_leave_end, lemma_signature_header_in_bounds,
    lemma_signature_header_leaves_end, property_id, signature_header, spec_property_id,
    spec_signature_header, spec_tag_property_id, tag_property_id,
};
use crate::parser::types::files_info::{FilesInfo, FilesInfoView};
use crate::parser::types::header::{Header, HeaderView};
use crate::parser::types::property_id::PropertyID;
use crate::parser::types::streams_info::StreamsInfoView;
use crate::parser::types::{
    Archive, ArchiveProperties, ArchivePropertiesView, ArchiveView, Either,
};
use vstd::prelude::*;
use vstd::slice::{slice_subrange, slice_to_vec};

verus! {

/// A property of the archive: a marker, a length, and that many bytes.
pub open spec fn spec_archive_property(s: Seq<u8>) -> Decoded<(PropertyID, Seq<u8>)> {
    match spec_property_id(s) {
        Err(e) => Err(e),
        Ok((rest, id)) => match spec_sevenz_uint64_as_usize(rest) {
            Err(e) => Err(e),
            Ok((rest, len)) => match spec_take(rest, len as nat) {
                Err(e) => Err(e),
                Ok((rest, data)) => Ok((rest, (id, data))),
            },
        },
    }
}

/// Properties of the archive up to the marker `End`.
pub open spec fn spec_archive_property_list(s: Seq<u8>) -> Decoded<Seq<(PropertyID, Seq<u8>)>>
    decreases s.len(),
{
    if spec_has_tag(s, PropertyID::End) {
        Ok((s.skip(1), Seq::empty()))
    } else {
        match spec_archive_property(s) {
            Err(e) => Err(e),
            Ok((rest, property)) => with_prefix(seq![property], spec_archive_property_list(rest)),
        }
    }
}

/// The section on the archive's properties: the marker `ArchiveProperties`
/// and the properties.
pub open spec fn spec_archive_properties(s: Seq<u8>) -> Decoded<ArchivePropertiesView> {
    in_section(PropertyID::ArchiveProperties, spec_archive_properties_fields(s))
}

/// The fields of the section, with errors as they are before they are
/// marked as the section's.
pub open spec fn spec_archive_properties_fields(s: Seq<u8>) -> Decoded<ArchivePropertiesView> {
    match spec_tag_property_id(s, PropertyID::ArchiveProperties) {
        Err(e) => Err(e),
        Ok((rest, _)) => match spec_archive_property_list(rest) {
            Err(e) => Err(e),
            Ok((rest, property_data)) => Ok((rest, ArchivePropertiesView { property_data })),
        },
    }
}

/// The marker that opens a plain header. The marker of an encoded header is
/// refused as unsupported, any other as out of place.
pub open spec fn spec_header_tag(s: Seq<u8>) -> Decoded<PropertyID> {
    match spec_property_id(s) {
        Err(e) => Err(e),
        Ok((rest, id)) => if id == PropertyID::Header {
            Ok((rest, id))
        } else if id == PropertyID::EncodedHeader {
            Err(
                fail_at(
                    SevenZParserErrorKind::Unsupported(UnsupportedFeature::EncodedHeader),
                    s,
                ),
            )
        } else {
            Err(fail_at(SevenZParserErrorKind::InvalidTag, s))
        },
    }
}

/// The section on the archive's properties, if `s` begins with its marker.
pub open spec fn spec_opt_archive_properties(s: Seq<u8>) -> Decoded<Option<ArchivePropertiesView>> {
    if spec_has_tag(s, PropertyID::ArchiveProperties) {
        match spec_archive_properties(s) {
            Err(e) => Err(e),
            Ok((rest, properties)) => Ok((rest, Some(properties))),
        }
    } else {
        Ok((s, None))
    }
}

/// A section on streams behind the marker `id`, if `s` begins with it.
pub open spec fn spec_opt_streams_info(
    s: Seq<u8>,
    id: PropertyID,
    num_folders: Option<usize>,
) -> Decoded<Option<StreamsInfoView>> {
    if spec_has_tag(s, id) {
        match in_section(id, spec_streams_info(s.skip(1), num_folders)) {
            Err(e) => Err(e),
            Ok((rest, info)) => Ok((rest, Some(info))),
        }
    } else {
        Ok((s, None))
    }
}

/// The section on files, if `s` begins with its marker.
pub open spec fn spec_opt_files_info(s: Seq<u8>) -> Decoded<Option<FilesInfoView>> {
    if spec_has_tag(s, PropertyID::FilesInfo) {
        match spec_files_info(s) {
            Err(e) => Err(e),
            Ok((rest, info)) => Ok((rest, Some(info))),
        }
    } else {
        Ok((s, None))
    }
}

/// The number of folders of a section on streams, if it has a section on
/// folders.
pub open spec fn num_folders_of(streams: Option<StreamsInfoView>) -> Option<usize> {
    match streams {
        Some(info) => match info.coders_info {
            Some(coders) => Some(coders.num_folders),
            None => None,
        },
        None => None,
    }
}

/// The header: behind its marker the archive's properties, the additional
/// streams, the main streams and the files, in this order and each only if
/// its marker is there, and the marker `End`. The main streams take the
/// number of folders from the additional streams where they have no section
/// on folders themselves.
pub open spec fn spec_header(s: Seq<u8>) -> Decoded<HeaderView> {
    in_section(PropertyID::Header, spec_header_fields(s))
}

/// The fields of the section, with errors as they are before they are
/// marked as the section's.
#[verifier::opaque]
pub open spec fn spec_header_fields(s: Seq<u8>) -> Decoded<HeaderView> {
    match spec_header_tag(s) {
        Err(e) => Err(e),
        Ok((rest, _)) => match spec_opt_archive_properties(rest) {
            Err(e) => Err(e),
            Ok((rest, archive_properties)) => match spec_opt_streams_info(
                rest,
                PropertyID::AdditionalStreamsInfo,
                None,
            ) {
                Err(e) => Err(e),
                Ok((rest, additional_streams)) => match spec_opt_streams_info(
                    rest,
                    PropertyID::MainStreamsInfo,
                    num_folders_of(additional_streams),
                ) {
                    Err(e) => Err(e),
                    Ok((rest, main_streams)) => match spec_opt_files_info(rest) {
                        Err(e) => Err(e),
                        Ok((rest, files)) => match spec_tag_property_id(rest, PropertyID::End) {
                            Err(e) => Err(e),
                            Ok((rest, _)) => Ok(
                                (
                                    rest,
                                    HeaderView {
                                        archive_properties,
                                        additional_streams,
                                        main_streams,
                                        files,
                                    },
                                ),
                            ),
                        },
                    },
                },
            },
        },
    }
}

/// The error `e` of a decoder that ran on a part of the input behind which
/// `behind` more bytes stand: they count as unread too.
pub open spec fn error_before(e: SevenZParserError, behind: nat) -> SevenZParserError {
    SevenZParserError {
        kind: e.kind,
        section: e.section,
        remaining: (e.remaining + behind) as usize,
    }
}

/// An archive: the signature header and, at the offset and of the size that
/// its start header gives, counted from the end of the signature header,
/// the header, whose bytes must have the checksum that the start header
/// gives. What is left unread is what stands behind the header.
///
/// A header that does not lie within the input is reported as truncated at
/// the end of the signature header, a wrong checksum at the start of the
/// header.
pub open spec fn spec_archive(s: Seq<u8>) -> Decoded<ArchiveView> {
    match spec_signature_header(s) {
        Err(e) => Err(e),
        Ok((data, signature_header)) => {
            let offset = signature_header.start_header.next_header_offset as nat;
            let size = signature_header.start_header.next_header_size as nat;
            if offset + size > data.len() {
                Err(fail_at(SevenZParserErrorKind::Truncated, data))
            } else {
                let bytes = data.subrange(offset as int, (offset + size) as int);
                let behind = data.skip((offset + size) as int);
                let actual = crc32_iso_hdlc(bytes);
                let expected = signature_header.start_header.next_header_crc;
                if actual != expected {
                    Err(
                        fail_at(
                            SevenZParserErrorKind::Crc { expected, actual },
                            data.skip(offset as int),
                        ),
                    )
                } else {
                    match spec_header(bytes) {
                        Err(e) => Err(error_before(e, behind.len())),
                        Ok((_, header)) => Ok(
                            (
                                behind,
                                ArchiveView {
                                    signature_header,
                                    header_or_packed_header: Either::Left(header),
                                },
                            ),
                        ),
                    }
                }
            }
        },
    }
}

/// The properties of the archive leave an end of their input.
pub proof fn lemma_archive_property_list_leaves_end(s: Seq<u8>)
    ensures
        leaves_end(spec_archive_property_list(s), s),
    decreases s.len(),
{
    if spec_has_tag(s, PropertyID::End) {
        lemma_skip_is_end(s, 1);
    } else {
        lemma_markers_leave_end(s, PropertyID::End);
        if let Ok((r1, _)) = spec_property_id(s) {
            lemma_sevenz_uint64_leaves_end(r1);
            lemma_leaves_end_of_end(spec_sevenz_uint64_as_usize(r1), r1, s);
            if let Ok((r2, len)) = spec_sevenz_uint64_as_usize(r1) {
                lemma_fields_leave_end(r2, len as nat);
                lemma_leaves_end_of_end(spec_take(r2, len as nat), r2, s);
            }
        }
        if let Ok((rest, _)) = spec_archive_property(s) {
            lemma_archive_property_list_leaves_end(rest);
            lemma_leaves_end_of_end(spec_archive_property_list(rest), rest, s);
        }
    }
}

/// A section that may be absent leaves all of its input where it is.
proof fn lemma_absent_leaves_end<T>(s: Seq<u8>)
    ensures
        leaves_end(Ok::<(Seq<u8>, Option<T>), SevenZParserError>((s, None)), s),
{
    lemma_skip_is_end(s, 0);
    assert(s.skip(0) =~= s);
}

/// The header leaves an end of its input.
pub proof fn lemma_header_leaves_end(s: Seq<u8>)
    ensures
        leaves_end(spec_header(s), s),
{
    reveal(spec_header_fields);
    lemma_markers_leave_end(s, PropertyID::End);
    if let Ok((r1, _)) = spec_header_tag(s) {
        lemma_absent_leaves_end::<ArchivePropertiesView>(r1);
        lemma_markers_leave_end(r1, PropertyID::ArchiveProperties);
        if let Ok((mid, _)) = spec_tag_property_id(r1, PropertyID::ArchiveProperties) {
            lemma_archive_property_list_leaves_end(mid);
            lemma_leaves_end_of_end(spec_archive_property_list(mid), mid, r1);
        }
        let properties = spec_opt_archive_properties(r1);
        lemma_leaves_end_of_end(properties, r1, s);
        if let Ok((r2, _)) = properties {
            lemma_absent_leaves_end::<StreamsInfoView>(r2);
            if r2.len() > 0 {
                lemma_skip_is_end(r2, 1);
                lemma_streams_info_leaves_end(r2.skip(1), None);
                lemma_leaves_end_of_end(spec_streams_info(r2.skip(1), None), r2.skip(1), r2);
            }
            let additional = spec_opt_streams_info(r2, PropertyID::AdditionalStreamsInfo, None);
            lemma_leaves_end_of_end(additional, r2, s);
            if let Ok((r3, additional)) = additional {
                let num_folders = num_folders_of(additional);
                lemma_absent_leaves_end::<StreamsInfoView>(r3);
                if r3.len() > 0 {
                    lemma_skip_is_end(r3, 1);
                    lemma_streams_info_leaves_end(r3.skip(1), num_folders);
                    lemma_leaves_end_of_end(
                        spec_streams_info(r3.skip(1), num_folders),
                        r3.skip(1),
                        r3,
                    );
                }
                let main = spec_opt_streams_info(r3, PropertyID::MainStreamsInfo, num_folders);
                lemma_leaves_end_of_end(main, r3, s);
                if let Ok((r4, _)) = main {
                    lemma_absent_leaves_end::<FilesInfoView>(r4);
                    lemma_files_info_leaves_end(r4);
                    let files = spec_opt_files_info(r4);
                    lemma_leaves_end_of_end(files, r4, s);
                    if let Ok((r5, _)) = files {
                        lemma_markers_leave_end(r5, PropertyID::End);
                        lemma_leaves_end_of_end(spec_tag_property_id(r5, PropertyID::End), r5, s);
                    }
                }
            }
        }
    }
}

/// An archive leaves an end of its input: what stands behind the header.
pub proof fn lemma_archive_leaves_end(s: Seq<u8>)
    ensures
        leaves_end(spec_archive(s), s),
{
    lemma_signature_header_leaves_end(s);
    if let Ok((data, signature_header)) = spec_signature_header(s) {
        let offset = signature_header.start_header.next_header_offset as nat;
        let size = signature_header.start_header.next_header_size as nat;
        if offset + size <= data.len() {
            lemma_skip_is_end(data, (offset + size) as int);
            lemma_end_of_end(data.skip((offset + size) as int), data, s);
        }
    }
}

/// The properties of the archive are decoded within their input.
pub proof fn lemma_archive_property_list_in_bounds(s: Seq<u8>)
    ensures
        in_bounds(spec_archive_property_list(s), s),
    decreases s.len(),
{
    if !spec_has_tag(s, PropertyID::End) {
        if let Ok((rest, _)) = spec_archive_property(s) {
            lemma_archive_property_list_in_bounds(rest);
        }
    }
}

/// The header is decoded within its input.
pub proof fn lemma_header_in_bounds(s: Seq<u8>)
    ensures
        in_bounds(spec_header(s), s),
{
    reveal(spec_header_fields);
    if let Ok((rest, _)) = spec_header_tag(s) {
        if let Ok((rest, _)) = spec_tag_property_id(rest, PropertyID::ArchiveProperties) {
            lemma_archive_property_list_in_bounds(rest);
        }
        if let Ok((rest, _)) = spec_opt_archive_properties(rest) {
            lemma_streams_info_in_bounds(rest.skip(1), None);
            if let Ok((rest, additional)) = spec_opt_streams_info(
                rest,
                PropertyID::AdditionalStreamsInfo,
                None,
            ) {
                lemma_streams_info_in_bounds(rest.skip(1), num_folders_of(additional));
                if let Ok((rest, _)) = spec_opt_streams_info(
                    rest,
                    PropertyID::MainStreamsInfo,
                    num_folders_of(additional),
                ) {
                    lemma_files_info_in_bounds(rest);
                }
            }
        }
    }
}

/// An archive is decoded within its input.
pub proof fn lemma_archive_in_bounds(s: Seq<u8>)
    ensures
        in_bounds(spec_archive(s), s),
{
    lemma_signature_header_in_bounds(s);
    if let Ok((data, signature_header)) = spec_signature_header(s) {
        let offset = signature_header.start_header.next_header_offset as nat;
        let size = signature_header.start_header.next_header_size as nat;
        if offset + size <= data.len() {
            lemma_header_in_bounds(data.subrange(offset as int, (offset + size) as int));
        }
    }
}

/// A header that is decoded is well-formed.
pub proof fn lemma_header_wf(s: Seq<u8>)
    ensures
        spec_header(s) matches Ok((_, header)) ==> header.wf(),
{
    reveal(spec_header_fields);
    if let Ok((rest, _)) = spec_header_tag(s) {
        if let Ok((rest, _)) = spec_opt_archive_properties(rest) {
            lemma_streams_info_wf(rest.skip(1), None);
            if let Ok((rest, additional)) = spec_opt_streams_info(
                rest,
                PropertyID::AdditionalStreamsInfo,
                None,
            ) {
                lemma_streams_info_wf(rest.skip(1), num_folders_of(additional));
                if let Ok((rest, _)) = spec_opt_streams_info(
                    rest,
                    PropertyID::MainStreamsInfo,
                    num_folders_of(additional),
                ) {
                    lemma_files_info_wf(rest);
                }
            }
        }
    }
}

/// An archive that is decoded is well-formed.
pub proof fn lemma_archive_wf(s: Seq<u8>)
    ensures
        spec_archive(s) matches Ok((_, archive)) ==> archive.wf(),
{
    if let Ok((data, signature_header)) = spec_signature_header(s) {
        let offset = signature_header.start_header.next_header_offset as nat;
        let size = signature_header.start_header.next_header_size as nat;
        if offset + size <= data.len() {
            lemma_header_wf(data.subrange(offset as int, (offset + size) as int));
        }
    }
}

/// Decodes one property of the archive.
pub fn archive_property(input: &[u8]) -> (r: SevenZResult<(PropertyID, &[u8])>)
    ensures
        decodes(r, spec_archive_property(input@)),
{
    let (input, prop_type) = property_id(input)?;
    let (input, len) = sevenz_uint64_as_usize(input)?;
    let (input, prop_data) = take(input, len)?;
    Ok((input, (prop_type, prop_data)))
}

/// Decodes properties of the archive up to the marker `End`.
fn archive_property_list(input: &[u8]) -> (r: SevenZResult<ArchiveProperties>)
    ensures
        match (r, spec_archive_property_list(input@)) {
            (Ok((rest, properties)), Ok((srest, sproperties))) => rest@ == srest
                && properties@.property_data == sproperties,
            (Err(e), Err(se)) => e == se,
            _ => false,
        },
{
    let mut props: Vec<(PropertyID, Vec<u8>)> = Vec::new();
    let mut rest = input;
    let ghost mut model: Seq<(PropertyID, Seq<u8>)> = Seq::empty();
    proof {
        if let Ok((r, ps)) = spec_archive_property_list(rest@) {
            lemma_with_prefix_empty(ps, r);
        }
        assert((ArchiveProperties { property_data: props })@.property_data =~= model);
    }
    loop
        invariant
            spec_archive_property_list(input@) == with_prefix(
                model,
                spec_archive_property_list(rest@),
            ),
            model == (ArchiveProperties { property_data: props })@.property_data,
        decreases rest@.len(),
    {
        if has_tag(rest, PropertyID::End) {
            proof {
                lemma_with_prefix_empty(model, rest@.skip(1));
            }
            return Ok(
                (slice_subrange(rest, 1, rest.len()), ArchiveProperties { property_data: props }),
            );
        }
        let (after, (prop_id, prop_data)) = match archive_property(rest) {
            Err(e) => {
                return Err(e);
            },
            Ok(read) => read,
        };
        proof {
            lemma_with_prefix_push(
                model,
                (prop_id, prop_data@),
                spec_archive_property_list(after@),
            );
            model = model.push((prop_id, prop_data@));
        }
        props.push((prop_id, slice_to_vec(prop_data)));
        proof {
            assert((ArchiveProperties { property_data: props })@.property_data =~= model);
        }
        rest = after;
    }
}

/// Decodes the section on the archive's properties.
pub fn archive_properties(input: &[u8]) -> (r: SevenZResult<ArchiveProperties>)
    ensures
        decodes(r, spec_archive_properties(input@)),
{
    mark_section(PropertyID::ArchiveProperties, archive_properties_fields(input))
}

fn archive_properties_fields(input: &[u8]) -> (r: SevenZResult<ArchiveProperties>)
    ensures
        decodes(r, spec_archive_properties_fields(input@)),
{
    let (input, _) = tag_property_id(input, PropertyID::ArchiveProperties)?;
    archive_property_list(input)
}

fn header_tag(input: &[u8]) -> (r: SevenZResult<PropertyID>)
    ensures
        decodes(r, spec_header_tag(input@)),
{
    let (rest, id) = property_id(input)?;
    match id {
        PropertyID::Header => Ok((rest, id)),
        PropertyID::EncodedHeader => Err(
            SevenZParserError::new(
                SevenZParserErrorKind::Unsupported(UnsupportedFeature::EncodedHeader),
                input.len(),
            ),
        ),
        _ => Err(SevenZParserError::new(SevenZParserErrorKind::InvalidTag, input.len())),
    }
}

/// Decodes the header.
pub fn header(input: &[u8]) -> (r: SevenZResult<Header>)
    ensures
        decodes(r, spec_header(input@)),
        r matches Ok((_, header)) ==> header@.wf(),
{
    proof {
        lemma_header_wf(input@);
    }
    mark_section(PropertyID::Header, header_fields(input))
}

fn header_fields(input: &[u8]) -> (r: SevenZResult<Header>)
    ensures
        decodes(r, spec_header_fields(input@)),
{
    reveal(spec_header_fields);
    let (input, _) = header_tag(input)?;
    let (input, archive_properties) = if has_tag(input, PropertyID::ArchiveProperties) {
        let (input, properties) = archive_properties(input)?;
        (input, Some(properties))
    } else {
        (input, None)
    };
    let (input, additional_streams) = if has_tag(input, PropertyID::AdditionalStreamsInfo) {
        let (input, info) = mark_section(
            PropertyID::AdditionalStreamsInfo,
            streams_info(slice_subrange(input, 1, input.len()), None),
        )?;
        (input, Some(info))
    } else {
        (input, None)
    };
    let num_folders = match &additional_streams {
        Some(info) => match &info.coders_info {
            Some(coders) => Some(coders.num_folders),
            None => None,
        },
        None => None,
    };
    let (input, main_streams) = if has_tag(input, PropertyID::MainStreamsInfo) {
        let (input, info) = mark_section(
            PropertyID::MainStreamsInfo,
            streams_info(slice_subrange(input, 1, input.len()), num_folders),
        )?;
        (input, Some(info))
    } else {
        (input, None)
    };
    let (input, files) = if has_tag(input, PropertyID::FilesInfo) {
        let (input, info) = files_info(input)?;
        (input, Some(info))
    } else {
        (input, None)
    };
    let (input, _) = tag_property_id(input, PropertyID::End)?;
    Ok((input, Header { archive_properties, additional_streams, main_streams, files }))
}

/// Decodes an archive: the signature header, and the header that it points
/// to.
pub fn archive(input: &[u8]) -> (r: SevenZResult<Archive>)
    ensures
        decodes(r, spec_archive(input@)),
        r matches Ok((_, archive)) ==> archive@.wf(),
{
    proof {
        lemma_archive_wf(input@);
    }
    let (data, signature_header) = signature_header(input)?;
    let offset = signature_header.start_header.next_header_offset;
    let size = signature_header.start_header.next_header_size;
    if offset > data.len() as u64 || size > data.len() as u64 - offset {
        return Err(SevenZParserError::new(SevenZParserErrorKind::Truncated, data.len()));
    }
    let start = offset as usize;
    let end = start + size as usize;
    let bytes = slice_subrange(data, start, end);
    let behind = slice_subrange(data, end, data.len());
    match verify(signature_header.start_header.next_header_crc, sevenz_crc(bytes)) {
        Err(kind) => {
            return Err(SevenZParserError::new(kind, data.len() - start));
        },
        Ok(_) => {},
    }
    match header(bytes) {
        Err(e) => {
            proof {
                lemma_header_in_bounds(bytes@);
            }
            Err(
                SevenZParserError {
                    kind: e.kind,
                    section: e.section,
                    remaining: e.remaining + behind.len(),
                },
            )
        },
        Ok((_, header)) => Ok(
            (behind, Archive { signature_header, header_or_packed_header: Either::Left(header) }),
        ),
    }
}

} // verus!

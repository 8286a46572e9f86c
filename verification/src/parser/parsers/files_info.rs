//! The section on files: their number, and one property after another up
//! to the marker `End`.

use crate::parser::bits::{lemma_count_set_bound, Bits};
use crate::parser::combinators::{
    all_defined, count, defined_flags, lemma_count_in_bounds, lemma_count_leaves_end,
    lemma_count_len, lemma_many_cond_opt_in_bounds, lemma_many_cond_opt_leaves_end,
    lemma_many_cond_opt_len, lemma_with_prefix_empty, lemma_with_prefix_push, many_cond_opt,
    repeated, spec_count, spec_many_cond_opt, with_prefix, yields,
};
use crate::parser::err::{
    decodes, decodes_each, decodes_opt, fail_at, fail_with, in_bounds, in_section, leaves_end,
    lemma_leaves_end_of_end, mark_section, Decoded, SevenZConversionError, SevenZParserError,
    SevenZParserErrorKind, SevenZResult,
};
use crate::parser::parsers::bit::{lemma_take_bitvec_leaves_end, spec_take_bitvec, take_bitvec};
use crate::parser::parsers::bytes::{
    le_u16, le_u32, le_u64, lemma_fields_leave_end, spec_le_u16, spec_le_u32, spec_le_u64,
    spec_take, take,
};
use crate::parser::parsers::sevenz_uint64::{
    lemma_sevenz_uint64_leaves_end, sevenz_uint64, sevenz_uint64_as_usize, spec_sevenz_uint64,
    spec_sevenz_uint64_as_usize,
};
use crate::parser::parsers::{
    bool_byte, lemma_markers_leave_end, property_id, spec_bool_byte, spec_property_id,
    spec_tag_property_id, tag_property_id,
};
use crate::parser::types::files_info::{
    properties_fit, FileAttr, FileName, FileNameView, FileTime, FilesInfo, FilesInfoView,
    FilesProperty, FilesPropertyView,
};
use crate::parser::types::property_id::PropertyID;
use crate::parser::types::{lemma_seq_view_push, seq_view, Either};
use crate::parser::utf16::{decode_utf16, utf16_text};
use vstd::prelude::*;

verus! {

/// A bit vector of `n` bits behind its size in bytes, a packed integer that
/// is read and not used.
pub open spec fn spec_sized_bitvec(s: Seq<u8>, n: nat) -> Decoded<Seq<bool>> {
    match spec_sevenz_uint64(s) {
        Err(e) => Err(e),
        Ok((rest, _)) => spec_take_bitvec(rest, n),
    }
}

/// For which of `num_files` files a value follows: a boolean byte says
/// whether for all; if not, a bit vector says for which.
pub open spec fn spec_defined(s: Seq<u8>, num_files: nat) -> Decoded<Seq<bool>> {
    match spec_bool_byte(s) {
        Err(e) => Err(e),
        Ok((rest, all)) => if all {
            Ok((rest, all_defined(num_files)))
        } else {
            spec_take_bitvec(rest, num_files)
        },
    }
}

/// A time that is kept in place: a little-endian 64-bit integer.
pub open spec fn spec_file_time(s: Seq<u8>) -> Decoded<FileTime> {
    match spec_le_u64(s) {
        Err(e) => Err(e),
        Ok((rest, time)) => Ok((rest, Either::Right(time))),
    }
}

/// The decoder of times, as a value.
pub open spec fn file_time_decoder() -> spec_fn(Seq<u8>) -> Decoded<FileTime> {
    |s: Seq<u8>| spec_file_time(s)
}

/// Attributes that are kept in place: a little-endian 32-bit integer.
pub open spec fn spec_file_attr(s: Seq<u8>) -> Decoded<FileAttr> {
    match spec_le_u32(s) {
        Err(e) => Err(e),
        Ok((rest, attr)) => Ok((rest, Either::Right(attr))),
    }
}

/// The decoder of attributes, as a value.
pub open spec fn file_attr_decoder() -> spec_fn(Seq<u8>) -> Decoded<FileAttr> {
    |s: Seq<u8>| spec_file_attr(s)
}

/// The times of `num_files` files, behind the marker: a size that is not
/// used, for which files a time is defined, and a boolean byte that says
/// whether the times are kept in an auxiliary stream. If so, the stream's
/// index follows and stands for every file; if not, a time follows for each
/// file for which one is defined.
pub open spec fn spec_time(s: Seq<u8>, num_files: nat) -> Decoded<Seq<Option<FileTime>>> {
    match spec_sevenz_uint64(s) {
        Err(e) => Err(e),
        Ok((rest, _)) => match spec_defined(rest, num_files) {
            Err(e) => Err(e),
            Ok((rest, defined)) => match spec_bool_byte(rest) {
                Err(e) => Err(e),
                Ok((rest, external)) => if external {
                    match spec_le_u64(rest) {
                        Err(e) => Err(e),
                        Ok((rest, index)) => Ok(
                            (rest, repeated(Some(Either::Left(index)), num_files)),
                        ),
                    }
                } else {
                    spec_many_cond_opt(file_time_decoder(), rest, defined, num_files)
                },
            },
        },
    }
}

/// The attributes of `num_files` files, behind the marker; laid out as the
/// times are, with 32-bit values.
pub open spec fn spec_attrs(s: Seq<u8>, num_files: nat) -> Decoded<Seq<Option<FileAttr>>> {
    match spec_sevenz_uint64(s) {
        Err(e) => Err(e),
        Ok((rest, _)) => match spec_defined(rest, num_files) {
            Err(e) => Err(e),
            Ok((rest, defined)) => match spec_bool_byte(rest) {
                Err(e) => Err(e),
                Ok((rest, external)) => if external {
                    match spec_le_u64(rest) {
                        Err(e) => Err(e),
                        Ok((rest, index)) => Ok(
                            (rest, repeated(Some(Either::Left(index)), num_files)),
                        ),
                    }
                } else {
                    spec_many_cond_opt(file_attr_decoder(), rest, defined, num_files)
                },
            },
        },
    }
}

/// Little-endian code units up to the first that is zero, which ends them
/// and is not among them.
pub open spec fn spec_wchar_units(s: Seq<u8>) -> Decoded<Seq<u16>>
    decreases s.len(),
{
    match spec_le_u16(s) {
        Err(e) => Err(e),
        Ok((rest, unit)) => if unit == 0 {
            Ok((rest, Seq::empty()))
        } else {
            with_prefix(seq![unit], spec_wchar_units(rest))
        },
    }
}

/// A name: UTF-16 code units that a zero unit ends. Units that are not
/// valid UTF-16 are a conversion failure, reported at the name.
pub open spec fn spec_wchar_str(s: Seq<u8>) -> Decoded<Seq<char>> {
    match spec_wchar_units(s) {
        Err(e) => Err(e),
        Ok((rest, units)) => match utf16_text(units) {
            Some(text) => Ok((rest, text)),
            None => Err(
                fail_at(
                    SevenZParserErrorKind::ConversionFailure(SevenZConversionError::ToString),
                    s,
                ),
            ),
        },
    }
}

/// A name that is kept in place.
pub open spec fn spec_file_name(s: Seq<u8>) -> Decoded<FileNameView> {
    match spec_wchar_str(s) {
        Err(e) => Err(e),
        Ok((rest, name)) => Ok((rest, Either::Right(name))),
    }
}

/// The decoder of names, as a value.
pub open spec fn file_name_decoder() -> spec_fn(Seq<u8>) -> Decoded<FileNameView> {
    |s: Seq<u8>| spec_file_name(s)
}

/// The names of `num_files` files, behind the marker: a size that is not
/// used and a boolean byte that says whether the names are kept in an
/// auxiliary stream. If so, the stream's index follows and stands for every
/// file; if not, the names follow.
pub open spec fn spec_names(s: Seq<u8>, num_files: nat) -> Decoded<Seq<FileNameView>> {
    match spec_sevenz_uint64(s) {
        Err(e) => Err(e),
        Ok((rest, _)) => match spec_bool_byte(rest) {
            Err(e) => Err(e),
            Ok((rest, external)) => if external {
                match spec_le_u64(rest) {
                    Err(e) => Err(e),
                    Ok((rest, index)) => Ok((rest, repeated(Either::Left(index), num_files))),
                }
            } else {
                spec_count(file_name_decoder(), rest, num_files)
            },
        },
    }
}

/// Whether every byte is zero.
pub open spec fn all_zero(bytes: Seq<u8>) -> bool {
    forall|i: int| 0 <= i < bytes.len() ==> bytes[i] == 0
}

/// Padding, behind the marker `Dummy`: its length, and that many bytes,
/// which must all be zero. A byte that is not is reported at the start of
/// the padding.
pub open spec fn spec_dummy(s: Seq<u8>) -> Decoded<()> {
    match spec_sevenz_uint64_as_usize(s) {
        Err(e) => Err(e),
        Ok((rest, size)) => match spec_take(rest, size as nat) {
            Err(e) => Err(e),
            Ok((after, data)) => if all_zero(data) {
                Ok((after, ()))
            } else {
                Err(fail_at(SevenZParserErrorKind::DummyNotAllZeroes, rest))
            },
        },
    }
}

/// What stands behind the marker `id` among the properties of files: a
/// property, or nothing in the case of padding. A marker that is out of
/// place is reported where it stands, with `remaining` bytes unread.
///
/// The vectors of `EmptyFile` and `Anti` have one bit for each file without
/// a stream, so they must come behind `EmptyStream`, which says how many
/// those are.
#[verifier::opaque]
pub open spec fn spec_property_body(
    s: Seq<u8>,
    id: PropertyID,
    num_files: nat,
    num_empty_streams: Option<nat>,
    remaining: nat,
) -> Decoded<Option<FilesPropertyView>> {
    match id {
        PropertyID::EmptyStream => match spec_sized_bitvec(s, num_files) {
            Err(e) => Err(e),
            Ok((rest, bits)) => Ok((rest, Some(FilesPropertyView::EmptyStream(bits)))),
        },
        PropertyID::EmptyFile => match num_empty_streams {
            None => Err(
                fail_with(SevenZParserErrorKind::FilesEmptyFileBeforeFilesEmptyStream, remaining),
            ),
            Some(n) => match spec_sized_bitvec(s, n) {
                Err(e) => Err(e),
                Ok((rest, bits)) => Ok((rest, Some(FilesPropertyView::EmptyFile(bits)))),
            },
        },
        PropertyID::Anti => match num_empty_streams {
            None => Err(
                fail_with(SevenZParserErrorKind::FilesAntiBeforeFilesEmptyStream, remaining),
            ),
            Some(n) => match spec_sized_bitvec(s, n) {
                Err(e) => Err(e),
                Ok((rest, bits)) => Ok((rest, Some(FilesPropertyView::Anti(bits)))),
            },
        },
        PropertyID::CTime => match spec_time(s, num_files) {
            Err(e) => Err(e),
            Ok((rest, times)) => Ok((rest, Some(FilesPropertyView::CTime(times)))),
        },
        PropertyID::ATime => match spec_time(s, num_files) {
            Err(e) => Err(e),
            Ok((rest, times)) => Ok((rest, Some(FilesPropertyView::ATime(times)))),
        },
        PropertyID::MTime => match spec_time(s, num_files) {
            Err(e) => Err(e),
            Ok((rest, times)) => Ok((rest, Some(FilesPropertyView::MTime(times)))),
        },
        PropertyID::Name => match spec_names(s, num_files) {
            Err(e) => Err(e),
            Ok((rest, names)) => Ok((rest, Some(FilesPropertyView::Names(names)))),
        },
        PropertyID::WinAttributes => match spec_attrs(s, num_files) {
            Err(e) => Err(e),
            Ok((rest, attrs)) => Ok((rest, Some(FilesPropertyView::Attributes(attrs)))),
        },
        PropertyID::Dummy => match spec_dummy(s) {
            Err(e) => Err(e),
            Ok((rest, _)) => Ok((rest, None)),
        },
        _ => Err(fail_with(SevenZParserErrorKind::InvalidTag, remaining)),
    }
}

/// The number of files without a stream, once `item` has been decoded.
pub open spec fn empty_streams_after(
    item: Option<FilesPropertyView>,
    num_empty_streams: Option<nat>,
) -> Option<nat> {
    match item {
        Some(property) => property.empty_streams_after(num_empty_streams),
        None => num_empty_streams,
    }
}

/// `items` with `item` before them, if it is a property.
pub open spec fn with_item(
    item: Option<FilesPropertyView>,
    d: Decoded<Seq<FilesPropertyView>>,
) -> Decoded<Seq<FilesPropertyView>> {
    match item {
        Some(property) => with_prefix(seq![property], d),
        None => d,
    }
}

/// The properties up to the marker `End`, in the order in which they stand.
pub open spec fn spec_properties(
    s: Seq<u8>,
    num_files: nat,
    num_empty_streams: Option<nat>,
) -> Decoded<Seq<FilesPropertyView>>
    decreases s.len(),
    via spec_properties_decreases
{
    match spec_property_id(s) {
        Err(e) => Err(e),
        Ok((rest, id)) => if id == PropertyID::End {
            Ok((rest, Seq::empty()))
        } else {
            match spec_property_body(rest, id, num_files, num_empty_streams, s.len()) {
                Err(e) => Err(e),
                Ok((after, item)) => with_item(
                    item,
                    spec_properties(
                        after,
                        num_files,
                        empty_streams_after(item, num_empty_streams),
                    ),
                ),
            }
        },
    }
}

#[via_fn]
proof fn spec_properties_decreases(s: Seq<u8>, num_files: nat, num_empty_streams: Option<nat>) {
    if let Ok((rest, id)) = spec_property_id(s) {
        lemma_property_body_in_bounds(rest, id, num_files, num_empty_streams);
    }
}

/// The section on files: the marker `FilesInfo`, the number of files, and
/// the properties.
pub open spec fn spec_files_info(s: Seq<u8>) -> Decoded<FilesInfoView> {
    in_section(PropertyID::FilesInfo, spec_files_info_fields(s))
}

/// The fields of the section, with errors as they are before they are
/// marked as the section's.
pub open spec fn spec_files_info_fields(s: Seq<u8>) -> Decoded<FilesInfoView> {
    match spec_tag_property_id(s, PropertyID::FilesInfo) {
        Err(e) => Err(e),
        Ok((rest, _)) => match spec_sevenz_uint64_as_usize(rest) {
            Err(e) => Err(e),
            Ok((rest, num_files)) => match spec_properties(rest, num_files as nat, None) {
                Err(e) => Err(e),
                Ok((rest, properties)) => Ok((rest, FilesInfoView { num_files, properties })),
            },
        },
    }
}

/// The decoders of times, attributes and names that are kept in place leave
/// an end of their input.
pub proof fn lemma_values_leave_end()
    ensures
        forall|x: Seq<u8>| leaves_end(#[trigger] file_time_decoder()(x), x),
        forall|x: Seq<u8>| leaves_end(#[trigger] file_attr_decoder()(x), x),
        forall|x: Seq<u8>| leaves_end(#[trigger] file_name_decoder()(x), x),
{
    assert forall|x: Seq<u8>| leaves_end(#[trigger] file_time_decoder()(x), x) by {
        lemma_fields_leave_end(x, 8);
    }
    assert forall|x: Seq<u8>| leaves_end(#[trigger] file_attr_decoder()(x), x) by {
        lemma_fields_leave_end(x, 4);
    }
    assert forall|x: Seq<u8>| leaves_end(#[trigger] file_name_decoder()(x), x) by {
        lemma_wchar_units_leaves_end(x);
    }
}

/// The code units of a name leave an end of their input.
pub proof fn lemma_wchar_units_leaves_end(s: Seq<u8>)
    ensures
        leaves_end(spec_wchar_units(s), s),
    decreases s.len(),
{
    lemma_fields_leave_end(s, 2);
    if let Ok((rest, unit)) = spec_le_u16(s) {
        if unit != 0 {
            lemma_wchar_units_leaves_end(rest);
            lemma_leaves_end_of_end(spec_wchar_units(rest), rest, s);
        }
    }
}

/// What says for which files a value follows leaves an end of its input.
pub proof fn lemma_defined_leaves_end(s: Seq<u8>, num_files: nat)
    ensures
        leaves_end(spec_defined(s, num_files), s),
{
    lemma_markers_leave_end(s, PropertyID::End);
    if let Ok((rest, all)) = spec_bool_byte(s) {
        lemma_take_bitvec_leaves_end(rest, num_files);
        lemma_leaves_end_of_end(spec_take_bitvec(rest, num_files), rest, s);
    }
}

/// Times and attributes leave an end of their input.
pub proof fn lemma_times_leave_end(s: Seq<u8>, num_files: nat)
    ensures
        leaves_end(spec_time(s, num_files), s),
        leaves_end(spec_attrs(s, num_files), s),
{
    lemma_values_leave_end();
    lemma_sevenz_uint64_leaves_end(s);
    if let Ok((r1, _)) = spec_sevenz_uint64(s) {
        lemma_defined_leaves_end(r1, num_files);
        lemma_leaves_end_of_end(spec_defined(r1, num_files), r1, s);
        if let Ok((r2, defined)) = spec_defined(r1, num_files) {
            lemma_markers_leave_end(r2, PropertyID::End);
            lemma_leaves_end_of_end(spec_bool_byte(r2), r2, s);
            if let Ok((r3, external)) = spec_bool_byte(r2) {
                lemma_fields_leave_end(r3, 8);
                lemma_leaves_end_of_end(spec_le_u64(r3), r3, s);
                let times = spec_many_cond_opt(file_time_decoder(), r3, defined, num_files);
                lemma_many_cond_opt_leaves_end(file_time_decoder(), r3, defined, num_files);
                lemma_leaves_end_of_end(times, r3, s);
                let attrs = spec_many_cond_opt(file_attr_decoder(), r3, defined, num_files);
                lemma_many_cond_opt_leaves_end(file_attr_decoder(), r3, defined, num_files);
                lemma_leaves_end_of_end(attrs, r3, s);
            }
        }
    }
}

/// Names leave an end of their input.
pub proof fn lemma_names_leave_end(s: Seq<u8>, num_files: nat)
    ensures
        leaves_end(spec_names(s, num_files), s),
{
    lemma_values_leave_end();
    lemma_sevenz_uint64_leaves_end(s);
    if let Ok((r1, _)) = spec_sevenz_uint64(s) {
        lemma_markers_leave_end(r1, PropertyID::End);
        lemma_leaves_end_of_end(spec_bool_byte(r1), r1, s);
        if let Ok((r2, external)) = spec_bool_byte(r1) {
            lemma_fields_leave_end(r2, 8);
            lemma_leaves_end_of_end(spec_le_u64(r2), r2, s);
            let names = spec_count(file_name_decoder(), r2, num_files);
            lemma_count_leaves_end(file_name_decoder(), r2, num_files);
            lemma_leaves_end_of_end(names, r2, s);
        }
    }
}

/// A property leaves an end of the input behind its marker.
pub proof fn lemma_property_body_leaves_end(
    s: Seq<u8>,
    id: PropertyID,
    num_files: nat,
    num_empty_streams: Option<nat>,
    remaining: nat,
)
    ensures
        leaves_end(spec_property_body(s, id, num_files, num_empty_streams, remaining), s),
{
    reveal(spec_property_body);
    lemma_times_leave_end(s, num_files);
    lemma_names_leave_end(s, num_files);
    lemma_sevenz_uint64_leaves_end(s);
    if let Ok((r1, _)) = spec_sevenz_uint64(s) {
        lemma_take_bitvec_leaves_end(r1, num_files);
        lemma_leaves_end_of_end(spec_take_bitvec(r1, num_files), r1, s);
        if let Some(n) = num_empty_streams {
            lemma_take_bitvec_leaves_end(r1, n);
            lemma_leaves_end_of_end(spec_take_bitvec(r1, n), r1, s);
        }
    }
    if let Ok((r1, size)) = spec_sevenz_uint64_as_usize(s) {
        lemma_fields_leave_end(r1, size as nat);
        lemma_leaves_end_of_end(spec_take(r1, size as nat), r1, s);
    }
}

/// The properties leave an end of their input.
pub proof fn lemma_properties_leave_end(
    s: Seq<u8>,
    num_files: nat,
    num_empty_streams: Option<nat>,
)
    ensures
        leaves_end(spec_properties(s, num_files, num_empty_streams), s),
    decreases s.len(),
{
    lemma_markers_leave_end(s, PropertyID::End);
    if let Ok((rest, id)) = spec_property_id(s) {
        if id != PropertyID::End {
            lemma_property_body_in_bounds(rest, id, num_files, num_empty_streams);
            lemma_property_body_leaves_end(rest, id, num_files, num_empty_streams, s.len());
            let body = spec_property_body(rest, id, num_files, num_empty_streams, s.len());
            lemma_leaves_end_of_end(body, rest, s);
            if let Ok((after, item)) = body {
                let next = empty_streams_after(item, num_empty_streams);
                lemma_properties_leave_end(after, num_files, next);
                lemma_leaves_end_of_end(spec_properties(after, num_files, next), after, s);
            }
        }
    }
}

/// The section on files leaves an end of its input.
pub proof fn lemma_files_info_leaves_end(s: Seq<u8>)
    ensures
        leaves_end(spec_files_info(s), s),
{
    lemma_markers_leave_end(s, PropertyID::FilesInfo);
    if let Ok((r1, _)) = spec_tag_property_id(s, PropertyID::FilesInfo) {
        lemma_sevenz_uint64_leaves_end(r1);
        lemma_leaves_end_of_end(spec_sevenz_uint64_as_usize(r1), r1, s);
        if let Ok((r2, num_files)) = spec_sevenz_uint64_as_usize(r1) {
            lemma_properties_leave_end(r2, num_files as nat, None);
            lemma_leaves_end_of_end(spec_properties(r2, num_files as nat, None), r2, s);
        }
    }
}

/// The code units of a name are decoded within their input.
pub proof fn lemma_wchar_units_in_bounds(s: Seq<u8>)
    ensures
        in_bounds(spec_wchar_units(s), s),
    decreases s.len(),
{
    if let Ok((rest, unit)) = spec_le_u16(s) {
        if unit != 0 {
            lemma_wchar_units_in_bounds(rest);
        }
    }
}

/// Times and attributes are decoded within their input.
pub proof fn lemma_times_in_bounds(s: Seq<u8>, num_files: nat)
    ensures
        in_bounds(spec_time(s, num_files), s),
        in_bounds(spec_attrs(s, num_files), s),
{
    assert forall|x: Seq<u8>| in_bounds(#[trigger] file_time_decoder()(x), x) by {}
    assert forall|x: Seq<u8>| in_bounds(#[trigger] file_attr_decoder()(x), x) by {}
    if let Ok((rest, _)) = spec_sevenz_uint64(s) {
        if let Ok((rest, defined)) = spec_defined(rest, num_files) {
            if let Ok((rest, external)) = spec_bool_byte(rest) {
                lemma_many_cond_opt_in_bounds(file_time_decoder(), rest, defined, num_files);
                lemma_many_cond_opt_in_bounds(file_attr_decoder(), rest, defined, num_files);
            }
        }
    }
}

/// Names are decoded within their input.
pub proof fn lemma_names_in_bounds(s: Seq<u8>, num_files: nat)
    ensures
        in_bounds(spec_names(s, num_files), s),
{
    assert forall|x: Seq<u8>| in_bounds(#[trigger] file_name_decoder()(x), x) by {
        lemma_wchar_units_in_bounds(x);
    }
    if let Ok((rest, _)) = spec_sevenz_uint64(s) {
        if let Ok((rest, external)) = spec_bool_byte(rest) {
            lemma_count_in_bounds(file_name_decoder(), rest, num_files);
        }
    }
}

/// A property is decoded within the input behind its marker. An error that
/// is reported at the marker lies one byte before that.
pub proof fn lemma_property_body_in_bounds(
    s: Seq<u8>,
    id: PropertyID,
    num_files: nat,
    num_empty_streams: Option<nat>,
)
    ensures
        match spec_property_body(s, id, num_files, num_empty_streams, s.len() + 1) {
            Ok((rest, _)) => rest.len() <= s.len(),
            Err(e) => e.remaining <= s.len() + 1,
        },
{
    reveal(spec_property_body);
    lemma_times_in_bounds(s, num_files);
    lemma_names_in_bounds(s, num_files);
}

/// The properties are decoded within their input.
pub proof fn lemma_properties_in_bounds(
    s: Seq<u8>,
    num_files: nat,
    num_empty_streams: Option<nat>,
)
    ensures
        in_bounds(spec_properties(s, num_files, num_empty_streams), s),
    decreases s.len(),
{
    if let Ok((rest, id)) = spec_property_id(s) {
        if id != PropertyID::End {
            lemma_property_body_in_bounds(rest, id, num_files, num_empty_streams);
            if let Ok((after, item)) = spec_property_body(
                rest,
                id,
                num_files,
                num_empty_streams,
                s.len(),
            ) {
                lemma_properties_in_bounds(
                    after,
                    num_files,
                    empty_streams_after(item, num_empty_streams),
                );
            }
        }
    }
}

/// The section on files is decoded within its input.
pub proof fn lemma_files_info_in_bounds(s: Seq<u8>)
    ensures
        in_bounds(spec_files_info(s), s),
{
    if let Ok((rest, _)) = spec_tag_property_id(s, PropertyID::FilesInfo) {
        if let Ok((rest, num_files)) = spec_sevenz_uint64_as_usize(rest) {
            lemma_properties_in_bounds(rest, num_files as nat, None);
        }
    }
}

/// Times and attributes that are decoded have an entry for each file.
pub proof fn lemma_times_len(s: Seq<u8>, num_files: nat)
    ensures
        spec_time(s, num_files) matches Ok((_, times)) ==> times.len() == num_files,
        spec_attrs(s, num_files) matches Ok((_, attrs)) ==> attrs.len() == num_files,
{
    if let Ok((rest, _)) = spec_sevenz_uint64(s) {
        if let Ok((rest, defined)) = spec_defined(rest, num_files) {
            if let Ok((rest, external)) = spec_bool_byte(rest) {
                lemma_many_cond_opt_len(file_time_decoder(), rest, defined, num_files);
                lemma_many_cond_opt_len(file_attr_decoder(), rest, defined, num_files);
            }
        }
    }
}

/// Names that are decoded are one for each file.
pub proof fn lemma_names_len(s: Seq<u8>, num_files: nat)
    ensures
        spec_names(s, num_files) matches Ok((_, names)) ==> names.len() == num_files,
{
    if let Ok((rest, _)) = spec_sevenz_uint64(s) {
        if let Ok((rest, external)) = spec_bool_byte(rest) {
            lemma_count_len(file_name_decoder(), rest, num_files);
        }
    }
}

/// A property that is decoded is as long as what it describes.
pub proof fn lemma_property_body_fits(
    s: Seq<u8>,
    id: PropertyID,
    num_files: nat,
    num_empty_streams: Option<nat>,
    remaining: nat,
)
    ensures
        spec_property_body(s, id, num_files, num_empty_streams, remaining) matches Ok(
            (_, Some(property)),
        ) ==> property.fits(num_files, num_empty_streams),
{
    reveal(spec_property_body);
    lemma_times_len(s, num_files);
    lemma_names_len(s, num_files);
}

/// The properties that are decoded are each as long as what it describes.
pub proof fn lemma_properties_fit(s: Seq<u8>, num_files: nat, num_empty_streams: Option<nat>)
    ensures
        spec_properties(s, num_files, num_empty_streams) matches Ok((_, properties))
            ==> properties_fit(properties, num_files, num_empty_streams),
    decreases s.len(),
{
    if let Ok((rest, id)) = spec_property_id(s) {
        if id != PropertyID::End {
            lemma_property_body_in_bounds(rest, id, num_files, num_empty_streams);
            lemma_property_body_fits(rest, id, num_files, num_empty_streams, s.len());
            if let Ok((after, item)) = spec_property_body(
                rest,
                id,
                num_files,
                num_empty_streams,
                s.len(),
            ) {
                let next = empty_streams_after(item, num_empty_streams);
                lemma_properties_fit(after, num_files, next);
                if let Ok((_, more)) = spec_properties(after, num_files, next) {
                    if let Some(property) = item {
                        assert((seq![property] + more).skip(1) =~= more);
                    }
                }
            }
        }
    }
}

/// A section on files that is decoded is well-formed.
pub proof fn lemma_files_info_wf(s: Seq<u8>)
    ensures
        spec_files_info(s) matches Ok((_, info)) ==> info.wf(),
{
    if let Ok((rest, _)) = spec_tag_property_id(s, PropertyID::FilesInfo) {
        if let Ok((rest, num_files)) = spec_sevenz_uint64_as_usize(rest) {
            lemma_properties_fit(rest, num_files as nat, None);
        }
    }
}

/// `n` times `item`.
fn repeat<T: Copy>(item: T, n: usize) -> (items: Vec<T>)
    ensures
        items@ == repeated(item, n as nat),
{
    let mut items: Vec<T> = Vec::new();
    let mut i: usize = 0;
    while i < n
        invariant
            i <= n,
            items@ == repeated(item, i as nat),
        decreases n - i,
    {
        proof {
            assert(repeated(item, i as nat).push(item) =~= repeated(item, (i + 1) as nat));
        }
        items.push(item);
        i = i + 1;
    }
    items
}

fn sized_bitvec(input: &[u8], n: usize) -> (r: SevenZResult<Bits>)
    ensures
        decodes(r, spec_sized_bitvec(input@, n as nat)),
{
    let (input, _size) = sevenz_uint64(input)?;
    take_bitvec(input, n)
}

/// Decodes for which files a value follows. No vector stands for all.
fn defined(input: &[u8], num_files: usize) -> (r: SevenZResult<Option<Bits>>)
    ensures
        match (r, spec_defined(input@, num_files as nat)) {
            (Ok((rest, flags)), Ok((srest, sflags))) => rest@ == srest && defined_flags(
                flags,
                num_files as nat,
            ) == sflags && sflags.len() == num_files,
            (Err(e), Err(se)) => e == se,
            _ => false,
        },
{
    let (input, all) = bool_byte(input)?;
    if all {
        Ok((input, None))
    } else {
        let (input, bits) = take_bitvec(input, num_files)?;
        Ok((input, Some(bits)))
    }
}

/// Parses a time that is kept in place.
fn file_time(input: &[u8]) -> (r: SevenZResult<FileTime>)
    ensures
        yields(r, spec_file_time(input@)),
{
    let (rest, time) = le_u64(input)?;
    Ok((rest, Either::Right(time)))
}

/// Parses attributes that are kept in place.
fn file_attr(input: &[u8]) -> (r: SevenZResult<FileAttr>)
    ensures
        yields(r, spec_file_attr(input@)),
{
    let (rest, attr) = le_u32(input)?;
    Ok((rest, Either::Right(attr)))
}

fn time(input: &[u8], num_files: usize) -> (r: SevenZResult<Vec<Option<FileTime>>>)
    ensures
        decodes(r, spec_time(input@, num_files as nat)),
{
    let (input, _size) = sevenz_uint64(input)?;
    let (input, defined) = defined(input, num_files)?;
    let (input, external) = bool_byte(input)?;
    if external {
        let (input, index) = le_u64(input)?;
        Ok((input, repeat(Some(Either::Left(index)), num_files)))
    } else {
        many_cond_opt(file_time, &defined, num_files, input, Ghost(file_time_decoder()))
    }
}

fn attrs(input: &[u8], num_files: usize) -> (r: SevenZResult<Vec<Option<FileAttr>>>)
    ensures
        decodes(r, spec_attrs(input@, num_files as nat)),
{
    let (input, _size) = sevenz_uint64(input)?;
    let (input, defined) = defined(input, num_files)?;
    let (input, external) = bool_byte(input)?;
    if external {
        let (input, index) = le_u64(input)?;
        Ok((input, repeat(Some(Either::Left(index)), num_files)))
    } else {
        many_cond_opt(file_attr, &defined, num_files, input, Ghost(file_attr_decoder()))
    }
}

fn wchar_units(input: &[u8]) -> (r: SevenZResult<Vec<u16>>)
    ensures
        decodes(r, spec_wchar_units(input@)),
{
    let mut units: Vec<u16> = Vec::new();
    let mut rest = input;
    proof {
        lemma_with_prefix_empty(Seq::<u16>::empty(), rest@);
        assert(with_prefix(Seq::<u16>::empty(), spec_wchar_units(rest@)) == spec_wchar_units(
            rest@,
        )) by {
            if let Ok((r, us)) = spec_wchar_units(rest@) {
                lemma_with_prefix_empty(us, r);
            }
        }
    }
    loop
        invariant
            spec_wchar_units(input@) == with_prefix(units@, spec_wchar_units(rest@)),
        decreases rest@.len(),
    {
        let (after, unit) = match le_u16(rest) {
            Err(e) => {
                return Err(e);
            },
            Ok(read) => read,
        };
        if unit == 0 {
            proof {
                lemma_with_prefix_empty(units@, after@);
            }
            return Ok((after, units));
        }
        proof {
            lemma_with_prefix_push(units@, unit, spec_wchar_units(after@));
        }
        units.push(unit);
        rest = after;
    }
}

/// Parses a name: UTF-16 code units, little-endian, up to a zero unit.
fn wchar_str(input: &[u8]) -> (r: SevenZResult<String>)
    ensures
        decodes(r, spec_wchar_str(input@)),
{
    let (rest, units) = wchar_units(input)?;
    let name = decode_utf16(units.as_slice(), input.len())?;
    Ok((rest, name))
}

fn repeat_external_name(index: u64, n: usize) -> (names: Vec<FileName>)
    ensures
        seq_view(names@) == repeated::<FileNameView>(Either::Left(index), n as nat),
{
    let mut names: Vec<FileName> = Vec::new();
    let mut i: usize = 0;
    proof {
        assert(seq_view(names@) =~= repeated::<FileNameView>(Either::Left(index), 0));
    }
    while i < n
        invariant
            i <= n,
            seq_view(names@) == repeated::<FileNameView>(Either::Left(index), i as nat),
        decreases n - i,
    {
        let name: FileName = Either::Left(index);
        proof {
            lemma_seq_view_push(names@, name);
            assert(repeated::<FileNameView>(Either::Left(index), i as nat).push(
                Either::Left(index),
            ) =~= repeated::<FileNameView>(Either::Left(index), (i + 1) as nat));
        }
        names.push(name);
        i = i + 1;
    }
    names
}

/// Parses a name that is kept in place.
fn file_name(input: &[u8]) -> (r: SevenZResult<FileName>)
    ensures
        decodes(r, spec_file_name(input@)),
{
    let (rest, name) = wchar_str(input)?;
    Ok((rest, Either::Right(name)))
}

fn names(input: &[u8], num_files: usize) -> (r: SevenZResult<Vec<FileName>>)
    ensures
        decodes_each(r, spec_names(input@, num_files as nat)),
{
    let (input, _size) = sevenz_uint64(input)?;
    let (input, external) = bool_byte(input)?;
    if external {
        let (input, index) = le_u64(input)?;
        Ok((input, repeat_external_name(index, num_files)))
    } else {
        count(file_name, num_files, input, Ghost(file_name_decoder()))
    }
}

fn is_all_zero(data: &[u8]) -> (b: bool)
    ensures
        b == all_zero(data@),
{
    let mut i: usize = 0;
    while i < data.len()
        invariant
            i <= data@.len(),
            forall|j: int| 0 <= j < i ==> data@[j] == 0,
        decreases data@.len() - i,
    {
        if data[i] != 0 {
            return false;
        }
        i = i + 1;
    }
    true
}

/// Reads padding and checks that it is zero.
fn dummy(input: &[u8]) -> (r: SevenZResult<()>)
    ensures
        decodes(r, spec_dummy(input@)),
{
    let (input, size) = sevenz_uint64_as_usize(input)?;
    let (after, data) = take(input, size)?;
    if is_all_zero(data) {
        Ok((after, ()))
    } else {
        Err(SevenZParserError::new(SevenZParserErrorKind::DummyNotAllZeroes, input.len()))
    }
}

/// A count that may not be known yet, as a natural number.
pub open spec fn opt_nat(n: Option<usize>) -> Option<nat> {
    match n {
        Some(n) => Some(n as nat),
        None => None,
    }
}

/// Decodes what stands behind the marker `id`, which `remaining` bytes
/// before the end of the input.
fn property_body(
    input: &[u8],
    id: PropertyID,
    num_files: usize,
    num_empty_streams: Option<usize>,
    remaining: usize,
) -> (r: SevenZResult<Option<FilesProperty>>)
    ensures
        decodes_opt(
            r,
            spec_property_body(
                input@,
                id,
                num_files as nat,
                opt_nat(num_empty_streams),
                remaining as nat,
            ),
        ),
{
    reveal(spec_property_body);
    match id {
        PropertyID::EmptyStream => {
            let (input, bits) = sized_bitvec(input, num_files)?;
            Ok((input, Some(FilesProperty::EmptyStream(bits))))
        },
        PropertyID::EmptyFile => match num_empty_streams {
            None => Err(
                SevenZParserError::new(
                    SevenZParserErrorKind::FilesEmptyFileBeforeFilesEmptyStream,
                    remaining,
                ),
            ),
            Some(n) => {
                let (input, bits) = sized_bitvec(input, n)?;
                Ok((input, Some(FilesProperty::EmptyFile(bits))))
            },
        },
        PropertyID::Anti => match num_empty_streams {
            None => Err(
                SevenZParserError::new(
                    SevenZParserErrorKind::FilesAntiBeforeFilesEmptyStream,
                    remaining,
                ),
            ),
            Some(n) => {
                let (input, bits) = sized_bitvec(input, n)?;
                Ok((input, Some(FilesProperty::Anti(bits))))
            },
        },
        PropertyID::CTime => {
            let (input, times) = time(input, num_files)?;
            Ok((input, Some(FilesProperty::CTime(times))))
        },
        PropertyID::ATime => {
            let (input, times) = time(input, num_files)?;
            Ok((input, Some(FilesProperty::ATime(times))))
        },
        PropertyID::MTime => {
            let (input, times) = time(input, num_files)?;
            Ok((input, Some(FilesProperty::MTime(times))))
        },
        PropertyID::Name => {
            let (input, names) = names(input, num_files)?;
            Ok((input, Some(FilesProperty::Names(names))))
        },
        PropertyID::WinAttributes => {
            let (input, attrs) = attrs(input, num_files)?;
            Ok((input, Some(FilesProperty::Attributes(attrs))))
        },
        PropertyID::Dummy => {
            let (input, _) = dummy(input)?;
            Ok((input, None))
        },
        _ => Err(SevenZParserError::new(SevenZParserErrorKind::InvalidTag, remaining)),
    }
}

/// Decodes the properties of `num_files` files up to the marker `End`.
fn properties(input: &[u8], num_files: usize) -> (r: SevenZResult<Vec<FilesProperty>>)
    ensures
        decodes_each(r, spec_properties(input@, num_files as nat, None)),
{
    let mut properties: Vec<FilesProperty> = Vec::new();
    let mut num_empty_streams: Option<usize> = None;
    let mut rest = input;
    proof {
        assert(seq_view(properties@) =~= Seq::<FilesPropertyView>::empty());
        if let Ok((r, ps)) = spec_properties(rest@, num_files as nat, None) {
            lemma_with_prefix_empty(ps, r);
        }
    }
    loop
        invariant
            spec_properties(input@, num_files as nat, None) == with_prefix(
                seq_view(properties@),
                spec_properties(rest@, num_files as nat, opt_nat(num_empty_streams)),
            ),
        decreases rest@.len(),
    {
        let ghost before = opt_nat(num_empty_streams);
        let ghost here = rest@;
        let (after_tag, id) = match property_id(rest) {
            Err(e) => {
                return Err(e);
            },
            Ok(read) => read,
        };
        if id == PropertyID::End {
            proof {
                lemma_with_prefix_empty(seq_view(properties@), after_tag@);
            }
            return Ok((after_tag, properties));
        }
        proof {
            lemma_property_body_in_bounds(after_tag@, id, num_files as nat, before);
        }
        let (after, item) = match property_body(
            after_tag,
            id,
            num_files,
            num_empty_streams,
            rest.len(),
        ) {
            Err(e) => {
                return Err(e);
            },
            Ok(read) => read,
        };
        match item {
            None => {
                proof {
                    assert(spec_properties(here, num_files as nat, before) == spec_properties(
                        after@,
                        num_files as nat,
                        before,
                    ));
                }
            },
            Some(property) => {
                if let FilesProperty::EmptyStream(bits) = &property {
                    proof {
                        lemma_count_set_bound(bits@, bits@.len());
                    }
                    num_empty_streams = Some(bits.count_ones());
                }
                proof {
                    let next = empty_streams_after(Some(property@), before);
                    assert(next == opt_nat(num_empty_streams));
                    assert(spec_properties(here, num_files as nat, before) == with_prefix(
                        seq![property@],
                        spec_properties(after@, num_files as nat, next),
                    ));
                    lemma_seq_view_push(properties@, property);
                    lemma_with_prefix_push(
                        seq_view(properties@),
                        property@,
                        spec_properties(after@, num_files as nat, next),
                    );
                }
                properties.push(property);
            },
        }
        rest = after;
    }
}

/// Decodes the section on files.
pub fn files_info(input: &[u8]) -> (r: SevenZResult<FilesInfo>)
    ensures
        decodes(r, spec_files_info(input@)),
        r matches Ok((_, info)) ==> info@.wf(),
{
    proof {
        lemma_files_info_wf(input@);
    }
    mark_section(PropertyID::FilesInfo, files_info_fields(input))
}

fn files_info_fields(input: &[u8]) -> (r: SevenZResult<FilesInfo>)
    ensures
        decodes(r, spec_files_info_fields(input@)),
{
    let (input, _) = tag_property_id(input, PropertyID::FilesInfo)?;
    let (input, num_files) = sevenz_uint64_as_usize(input)?;
    let (input, properties) = properties(input, num_files)?;
    Ok((input, FilesInfo { num_files, properties }))
}

} // verus!

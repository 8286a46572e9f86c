//! One file of an archive.

use crate::parser::err::{SevenZParserErrorKind, UnsupportedFeature};
use crate::parser::interface::streams::{
    clone_stream, get_file_streams_info, spec_file_streams, FileStreamInfo, FileStreamInfoView,
};
use crate::parser::types::coders_info::{CodersInfo, CodersInfoView};
use crate::parser::types::files_info::{
    first_of_kind, lemma_first_of_kind, lemma_properties_fit_at, FileName, FileTime, FilesInfo,
    FilesInfoView, FilesProperty, FilesPropertyView,
};
use crate::parser::types::header::SIGNATURE_HEADER_SIZE_BYTES;
use crate::parser::types::{lemma_seq_view_empty, seq_view, Either};
use vstd::prelude::*;
use vstd::slice::slice_subrange;

verus! {

/// What an archive records of one file.
#[derive(Debug, Clone, PartialEq, Eq)]
pub struct File {
    pub ctime: Option<u64>,
    pub atime: Option<u64>,
    pub mtime: Option<u64>,
    pub name: String,
    pub stream: FileStreamInfo,
}

/// The model of a `File`.
pub struct FileView {
    pub ctime: Option<u64>,
    pub atime: Option<u64>,
    pub mtime: Option<u64>,
    pub name: Seq<char>,
    pub stream: FileStreamInfoView,
}

impl View for File {
    type V = FileView;

    open spec fn view(&self) -> FileView {
        FileView {
            ctime: self.ctime,
            atime: self.atime,
            mtime: self.mtime,
            name: self.name@,
            stream: self.stream@,
        }
    }
}

/// A property of creation times, by which to look for one.
pub open spec fn ctime_kind() -> FilesPropertyView {
    FilesPropertyView::CTime(Seq::empty())
}

/// A property of access times, by which to look for one.
pub open spec fn atime_kind() -> FilesPropertyView {
    FilesPropertyView::ATime(Seq::empty())
}

/// A property of modification times, by which to look for one.
pub open spec fn mtime_kind() -> FilesPropertyView {
    FilesPropertyView::MTime(Seq::empty())
}

/// A property of names, by which to look for one.
pub open spec fn names_kind() -> FilesPropertyView {
    FilesPropertyView::Names(Seq::empty())
}

/// The time of file `index` that one entry of a property holds. A time that
/// is kept in an auxiliary stream is refused as unsupported.
pub open spec fn spec_time_of(entry: Option<FileTime>) -> Result<
    Option<u64>,
    SevenZParserErrorKind,
> {
    match entry {
        None => Ok(None),
        Some(Either::Left(_)) => Err(
            SevenZParserErrorKind::Unsupported(UnsupportedFeature::ExternalData),
        ),
        Some(Either::Right(time)) => Ok(Some(time)),
    }
}

/// The time of file `index` in the property `property` of times; none
/// where there is no such property.
pub open spec fn spec_time_at(property: Option<FilesPropertyView>, index: int) -> Result<
    Option<u64>,
    SevenZParserErrorKind,
> {
    match property {
        Some(FilesPropertyView::CTime(times)) => spec_time_of(times[index]),
        Some(FilesPropertyView::ATime(times)) => spec_time_of(times[index]),
        Some(FilesPropertyView::MTime(times)) => spec_time_of(times[index]),
        _ => Ok(None),
    }
}

/// The name of file `index` in the property of names. A name that is kept
/// in an auxiliary stream is refused as unsupported.
pub open spec fn spec_name_at(property: Option<FilesPropertyView>, index: int) -> Result<
    Seq<char>,
    SevenZParserErrorKind,
> {
    match property {
        Some(FilesPropertyView::Names(names)) => match names[index] {
            Either::Left(_) => Err(
                SevenZParserErrorKind::Unsupported(UnsupportedFeature::ExternalData),
            ),
            Either::Right(name) => Ok(name),
        },
        _ => Ok(Seq::empty()),
    }
}

/// File `index` of `fi`, with stream `index` of `streams`. The first of its
/// creation, access and modification time and its name that is kept in an
/// auxiliary stream is refused; then a file for which there is no stream.
pub open spec fn spec_file_at(
    fi: FilesInfoView,
    streams: Seq<FileStreamInfoView>,
    index: int,
) -> Result<FileView, SevenZParserErrorKind> {
    match spec_time_at(fi.property(ctime_kind()), index) {
        Err(e) => Err(e),
        Ok(ctime) => match spec_time_at(fi.property(atime_kind()), index) {
            Err(e) => Err(e),
            Ok(atime) => match spec_time_at(fi.property(mtime_kind()), index) {
                Err(e) => Err(e),
                Ok(mtime) => match spec_name_at(fi.property(names_kind()), index) {
                    Err(e) => Err(e),
                    Ok(name) => if index >= streams.len() {
                        Err(SevenZParserErrorKind::Unsupported(UnsupportedFeature::SubStreams))
                    } else {
                        Ok(FileView { ctime, atime, mtime, name, stream: streams[index] })
                    },
                },
            },
        },
    }
}

/// File `index` of `fi`, whose stream is that of folder `index` of `ci`.
/// What the folders do not support is refused before anything else.
pub open spec fn spec_file(fi: FilesInfoView, ci: CodersInfoView, index: int) -> Result<
    FileView,
    SevenZParserErrorKind,
> {
    match spec_file_streams(ci) {
        Err(e) => Err(e),
        Ok(streams) => spec_file_at(fi, streams, index),
    }
}

fn time_of(entry: &Option<FileTime>) -> (r: Result<Option<u64>, SevenZParserErrorKind>)
    ensures
        r == spec_time_of(*entry),
{
    match entry {
        None => Ok(None),
        Some(Either::Left(_)) => Err(
            SevenZParserErrorKind::Unsupported(UnsupportedFeature::ExternalData),
        ),
        Some(Either::Right(time)) => Ok(Some(*time)),
    }
}

/// The time of file `index` in the first property of the kind of `kind`,
/// which is one of the three kinds of times.
fn time_at(fi: &FilesInfo, kind: FilesProperty, index: usize) -> (r: Result<
    Option<u64>,
    SevenZParserErrorKind,
>)
    requires
        fi@.wf(),
        index < fi.num_files,
        kind@ == ctime_kind() || kind@ == atime_kind() || kind@ == mtime_kind(),
    ensures
        r == spec_time_at(fi@.property(kind@), index as int),
{
    let ghost skind = kind@;
    proof {
        lemma_first_of_kind(fi@.properties, skind, 0);
        if let Some(i) = first_of_kind(fi@.properties, skind, 0) {
            lemma_properties_fit_at(fi@.properties, fi.num_files as nat, None, i);
        }
    }
    match fi.get_property(kind) {
        None => Ok(None),
        Some(FilesProperty::CTime(times)) => time_of(&times[index]),
        Some(FilesProperty::ATime(times)) => time_of(&times[index]),
        Some(FilesProperty::MTime(times)) => time_of(&times[index]),
        Some(_) => Ok(None),
    }
}

/// A property of names, by which to look for one.
pub fn names_property() -> (kind: FilesProperty)
    ensures
        kind@ == names_kind(),
{
    let names: Vec<FileName> = Vec::new();
    proof {
        lemma_seq_view_empty::<FileName>();
    }
    FilesProperty::Names(names)
}

/// The name of file `index`.
fn name_at(fi: &FilesInfo, index: usize) -> (r: Result<String, SevenZParserErrorKind>)
    requires
        fi@.wf(),
        index < fi.num_files,
    ensures
        match (r, spec_name_at(fi@.property(names_kind()), index as int)) {
            (Ok(name), Ok(sname)) => name@ == sname,
            (Err(e), Err(se)) => e == se,
            _ => false,
        },
{
    proof {
        lemma_first_of_kind(fi@.properties, names_kind(), 0);
        if let Some(i) = first_of_kind(fi@.properties, names_kind(), 0) {
            lemma_properties_fit_at(fi@.properties, fi.num_files as nat, None, i);
        }
    }
    match fi.get_property(names_property()) {
        Some(FilesProperty::Names(names)) => match &names[index] {
            Either::Left(_) => Err(
                SevenZParserErrorKind::Unsupported(UnsupportedFeature::ExternalData),
            ),
            Either::Right(name) => Ok(name.clone()),
        },
        _ => Ok(String::new()),
    }
}

/// File `index` of `fi`, with stream `index` of `streams`.
pub fn file_at(fi: &FilesInfo, streams: &Vec<FileStreamInfo>, index: usize) -> (r: Result<
    File,
    SevenZParserErrorKind,
>)
    requires
        fi@.wf(),
        index < fi.num_files,
    ensures
        match (r, spec_file_at(fi@, seq_view(streams@), index as int)) {
            (Ok(file), Ok(sfile)) => file@ == sfile,
            (Err(e), Err(se)) => e == se,
            _ => false,
        },
{
    let ctime = time_at(fi, FilesProperty::CTime(Vec::new()), index)?;
    let atime = time_at(fi, FilesProperty::ATime(Vec::new()), index)?;
    let mtime = time_at(fi, FilesProperty::MTime(Vec::new()), index)?;
    let name = name_at(fi, index)?;
    if index >= streams.len() {
        return Err(SevenZParserErrorKind::Unsupported(UnsupportedFeature::SubStreams));
    }
    let stream = clone_stream(&streams[index]);
    Ok(File { ctime, atime, mtime, name, stream })
}

impl File {
    /// File `index` of `fi`, whose stream is that of folder `index` of `ci`.
    pub fn from_files_and_coders_info(fi: &FilesInfo, ci: &CodersInfo, index: usize) -> (r: Result<
        File,
        SevenZParserErrorKind,
    >)
        requires
            fi@.wf(),
            ci@.wf(),
            index < fi.num_files,
        ensures
            match (r, spec_file(fi@, ci@, index as int)) {
                (Ok(file), Ok(sfile)) => file@ == sfile,
                (Err(e), Err(se)) => e == se,
                _ => false,
            },
    {
        let streams = get_file_streams_info(ci)?;
        file_at(fi, &streams, index)
    }

    /// Whether the file's packed bytes lie within `data`, the whole archive.
    pub open spec fn spec_stream_within(&self, data: Seq<u8>) -> bool {
        SIGNATURE_HEADER_SIZE_BYTES + self.stream.offset + self.stream.size <= data.len()
    }

    /// Whether the file's packed bytes lie within `data`, the whole archive.
    pub fn stream_within(&self, data: &[u8]) -> (b: bool)
        ensures
            b == self.spec_stream_within(data@),
    {
        let len = data.len() as u64;
        len >= SIGNATURE_HEADER_SIZE_BYTES as u64 && self.stream.offset <= len
            - SIGNATURE_HEADER_SIZE_BYTES as u64 && self.stream.size <= len
            - SIGNATURE_HEADER_SIZE_BYTES as u64 - self.stream.offset
    }

    /// The file's packed bytes: those of `data`, the whole archive, that
    /// begin at the file's offset behind the signature header. They are not
    /// yet decoded.
    pub fn subslice_raw<'a>(&self, data: &'a [u8]) -> (r: &'a [u8])
        requires
            self.spec_stream_within(data@),
        ensures
            r@ == data@.subrange(
                SIGNATURE_HEADER_SIZE_BYTES + self.stream.offset,
                SIGNATURE_HEADER_SIZE_BYTES + self.stream.offset + self.stream.size,
            ),
    {
        assert(data@.len() == data.len());
        let offset: usize = self.stream.offset as usize;
        let offset: usize = offset + SIGNATURE_HEADER_SIZE_BYTES;
        let size: usize = self.stream.size as usize;
        slice_subrange(data, offset, offset + size)
    }
}

} // verus!

//! What an archive records of its files.

use crate::parser::bits::{count_set, Bits};
use crate::parser::types::{seq_view, Either};
use vstd::prelude::*;

verus! {

/// `Left`: the index of an auxiliary stream; `Right`: the time.
pub type FileTime = Either<u64, u64>;

/// `Left`: the index of an auxiliary stream; `Right`: the name.
pub type FileName = Either<u64, String>;

/// `Left`: the index of an auxiliary stream; `Right`: the attributes.
pub type FileAttr = Either<u64, u32>;

/// The model of a `FileName`.
pub type FileNameView = Either<u64, Seq<char>>;

impl View for Either<u64, String> {
    type V = Either<u64, Seq<char>>;

    open spec fn view(&self) -> Either<u64, Seq<char>> {
        match self {
            Either::Left(index) => Either::Left(*index),
            Either::Right(name) => Either::Right(name@),
        }
    }
}

/// One property, for all files at once.
#[derive(Debug, Clone, PartialEq, Eq)]
pub enum FilesProperty {
    /// For each file, whether it has no stream.
    EmptyStream(Bits),
    /// For each file without a stream, whether it is an empty file.
    EmptyFile(Bits),
    /// For each file without a stream, whether it marks a deletion.
    Anti(Bits),
    CTime(Vec<Option<FileTime>>),
    ATime(Vec<Option<FileTime>>),
    MTime(Vec<Option<FileTime>>),
    Names(Vec<FileName>),
    Attributes(Vec<Option<FileAttr>>),
}

/// The model of a `FilesProperty`.
pub enum FilesPropertyView {
    EmptyStream(Seq<bool>),
    EmptyFile(Seq<bool>),
    Anti(Seq<bool>),
    CTime(Seq<Option<FileTime>>),
    ATime(Seq<Option<FileTime>>),
    MTime(Seq<Option<FileTime>>),
    Names(Seq<FileNameView>),
    Attributes(Seq<Option<FileAttr>>),
}

impl View for FilesProperty {
    type V = FilesPropertyView;

    open spec fn view(&self) -> FilesPropertyView {
        match self {
            FilesProperty::EmptyStream(bits) => FilesPropertyView::EmptyStream(bits@),
            FilesProperty::EmptyFile(bits) => FilesPropertyView::EmptyFile(bits@),
            FilesProperty::Anti(bits) => FilesPropertyView::Anti(bits@),
            FilesProperty::CTime(times) => FilesPropertyView::CTime(times@),
            FilesProperty::ATime(times) => FilesPropertyView::ATime(times@),
            FilesProperty::MTime(times) => FilesPropertyView::MTime(times@),
            FilesProperty::Names(names) => FilesPropertyView::Names(seq_view(names@)),
            FilesProperty::Attributes(attrs) => FilesPropertyView::Attributes(attrs@),
        }
    }
}

impl FilesPropertyView {
    /// Whether two properties are of the same kind, whatever they hold.
    pub open spec fn same_kind(self, other: FilesPropertyView) -> bool {
        match (self, other) {
            (FilesPropertyView::EmptyStream(_), FilesPropertyView::EmptyStream(_)) => true,
            (FilesPropertyView::EmptyFile(_), FilesPropertyView::EmptyFile(_)) => true,
            (FilesPropertyView::Anti(_), FilesPropertyView::Anti(_)) => true,
            (FilesPropertyView::CTime(_), FilesPropertyView::CTime(_)) => true,
            (FilesPropertyView::ATime(_), FilesPropertyView::ATime(_)) => true,
            (FilesPropertyView::MTime(_), FilesPropertyView::MTime(_)) => true,
            (FilesPropertyView::Names(_), FilesPropertyView::Names(_)) => true,
            (FilesPropertyView::Attributes(_), FilesPropertyView::Attributes(_)) => true,
            _ => false,
        }
    }

    /// The number of entries of a property that has one for each file.
    pub open spec fn per_file_len(self) -> Option<nat> {
        match self {
            FilesPropertyView::EmptyStream(bits) => Some(bits.len()),
            FilesPropertyView::EmptyFile(_) => None,
            FilesPropertyView::Anti(_) => None,
            FilesPropertyView::CTime(times) => Some(times.len()),
            FilesPropertyView::ATime(times) => Some(times.len()),
            FilesPropertyView::MTime(times) => Some(times.len()),
            FilesPropertyView::Names(names) => Some(names.len()),
            FilesPropertyView::Attributes(attrs) => Some(attrs.len()),
        }
    }

    /// The number of entries of a property that has one for each file
    /// without a stream.
    pub open spec fn per_empty_stream_len(self) -> Option<nat> {
        match self {
            FilesPropertyView::EmptyFile(bits) => Some(bits.len()),
            FilesPropertyView::Anti(bits) => Some(bits.len()),
            _ => None,
        }
    }

    /// The property is as long as what it describes: `num_files` files, or
    /// `num_empty_streams` of them that have no stream.
    pub open spec fn fits(self, num_files: nat, num_empty_streams: Option<nat>) -> bool {
        &&& self.per_file_len() matches Some(n) ==> n == num_files
        &&& self.per_empty_stream_len() matches Some(n) ==> num_empty_streams == Some(n)
    }

    /// The number of files without a stream that is known behind this
    /// property, if `num_empty_streams` was known before it.
    pub open spec fn empty_streams_after(self, num_empty_streams: Option<nat>) -> Option<nat> {
        match self {
            FilesPropertyView::EmptyStream(bits) => Some(count_set(bits, bits.len())),
            _ => num_empty_streams,
        }
    }
}

/// Whether each of `properties` is as long as what it describes, where the
/// number of files without a stream is taken from the latest `EmptyStream`
/// that stands before a property.
pub open spec fn properties_fit(
    properties: Seq<FilesPropertyView>,
    num_files: nat,
    num_empty_streams: Option<nat>,
) -> bool
    decreases properties.len(),
{
    if properties.len() == 0 {
        true
    } else {
        &&& properties[0].fits(num_files, num_empty_streams)
        &&& properties_fit(
            properties.skip(1),
            num_files,
            properties[0].empty_streams_after(num_empty_streams),
        )
    }
}

/// In fitting properties, each that has an entry per file has `num_files`.
pub proof fn lemma_properties_fit_at(
    properties: Seq<FilesPropertyView>,
    num_files: nat,
    num_empty_streams: Option<nat>,
    i: int,
)
    requires
        properties_fit(properties, num_files, num_empty_streams),
        0 <= i < properties.len(),
    ensures
        properties[i].per_file_len() matches Some(n) ==> n == num_files,
    decreases properties.len(),
{
    if i > 0 {
        lemma_properties_fit_at(
            properties.skip(1),
            num_files,
            properties[0].empty_streams_after(num_empty_streams),
            i - 1,
        );
    }
}

/// The files of an archive: their number, and their properties in the order
/// in which the archive lists them.
#[derive(Debug, Clone, PartialEq, Eq)]
pub struct FilesInfo {
    pub num_files: usize,
    pub properties: Vec<FilesProperty>,
}

/// The model of a `FilesInfo`.
pub struct FilesInfoView {
    pub num_files: usize,
    pub properties: Seq<FilesPropertyView>,
}

impl View for FilesInfo {
    type V = FilesInfoView;

    open spec fn view(&self) -> FilesInfoView {
        FilesInfoView { num_files: self.num_files, properties: seq_view(self.properties@) }
    }
}

/// The position at or behind `from` of the first of `properties` that is of
/// the kind of `kind`.
pub open spec fn first_of_kind(
    properties: Seq<FilesPropertyView>,
    kind: FilesPropertyView,
    from: int,
) -> Option<int>
    decreases properties.len() - from,
{
    if from < 0 || from >= properties.len() {
        None
    } else if properties[from].same_kind(kind) {
        Some(from)
    } else {
        first_of_kind(properties, kind, from + 1)
    }
}

/// What is found is found at or behind `from`, and is of the kind asked for.
pub proof fn lemma_first_of_kind(
    properties: Seq<FilesPropertyView>,
    kind: FilesPropertyView,
    from: int,
)
    requires
        0 <= from,
    ensures
        first_of_kind(properties, kind, from) matches Some(i) ==> from <= i < properties.len()
            && properties[i].same_kind(kind),
    decreases properties.len() - from,
{
    if from < properties.len() && !properties[from].same_kind(kind) {
        lemma_first_of_kind(properties, kind, from + 1);
    }
}

impl FilesInfoView {
    /// Every property is as long as what it describes.
    pub open spec fn wf(self) -> bool {
        properties_fit(self.properties, self.num_files as nat, None)
    }

    /// The first property of the kind of `kind`.
    pub open spec fn property(self, kind: FilesPropertyView) -> Option<FilesPropertyView> {
        match first_of_kind(self.properties, kind, 0) {
            Some(i) => Some(self.properties[i]),
            None => None,
        }
    }
}

fn same_kind(a: &FilesProperty, b: &FilesProperty) -> (same: bool)
    ensures
        same == a@.same_kind(b@),
{
    match (a, b) {
        (FilesProperty::EmptyStream(_), FilesProperty::EmptyStream(_)) => true,
        (FilesProperty::EmptyFile(_), FilesProperty::EmptyFile(_)) => true,
        (FilesProperty::Anti(_), FilesProperty::Anti(_)) => true,
        (FilesProperty::CTime(_), FilesProperty::CTime(_)) => true,
        (FilesProperty::ATime(_), FilesProperty::ATime(_)) => true,
        (FilesProperty::MTime(_), FilesProperty::MTime(_)) => true,
        (FilesProperty::Names(_), FilesProperty::Names(_)) => true,
        (FilesProperty::Attributes(_), FilesProperty::Attributes(_)) => true,
        _ => false,
    }
}

impl FilesInfo {
    /// The first property of the kind of `kind`, whatever `kind` holds.
    pub fn get_property(&self, kind: FilesProperty) -> (r: Option<&FilesProperty>)
        ensures
            match r {
                Some(property) => self@.property(kind@) == Some(property@),
                None => self@.property(kind@) is None,
            },
    {
        let mut i: usize = 0;
        while i < self.properties.len()
            invariant
                i <= self.properties@.len(),
                first_of_kind(self@.properties, kind@, 0) == first_of_kind(
                    self@.properties,
                    kind@,
                    i as int,
                ),
            decreases self.properties@.len() - i,
        {
            if same_kind(&self.properties[i], &kind) {
                return Some(&self.properties[i]);
            }
            i = i + 1;
        }
        None
    }
}

} // verus!

//! Errors reported by the decoders.

use crate::parser::types::property_id::PropertyID;
use crate::parser::types::seq_view;
use vstd::prelude::*;

verus! {

/// A value that was read could not be converted to the type it is used as.
#[derive(Debug, Clone, Copy, PartialEq, Eq, Structural)]
pub enum SevenZConversionError {
    /// A packed integer used as a count or a length exceeds `usize::MAX`.
    ToUsize,
    /// A name is not valid UTF-16.
    ToString,
}

/// Parts of the format that are recognised and refused.
#[derive(Debug, Clone, Copy, PartialEq, Eq, Structural)]
pub enum UnsupportedFeature {
    /// Metadata kept in an auxiliary stream and referenced by index.
    ExternalData,
    /// A header that is itself stored as an encoded stream.
    EncodedHeader,
    /// A folder with more than one coder, or with none.
    MultiCoderFolder,
    /// A coder with declared input and output stream counts.
    ComplexCoder,
    /// Files that do not correspond one to one to the folders: several
    /// files in one folder, or files without a stream.
    SubStreams,
}

/// Why decoding stopped.
#[derive(Debug, Clone, Copy, PartialEq, Eq, Structural)]
pub enum SevenZParserErrorKind {
    /// Fewer bytes remain than the next field needs.
    Truncated,
    /// A valid marker stands where another one is required.
    InvalidTag,
    /// A checksum stored in the archive differs from the one computed.
    Crc { expected: u32, actual: u32 },
    /// A marker byte is outside `0x00..=0x19`.
    InvalidPropertyID(u8),
    ConversionFailure(SevenZConversionError),
    /// A byte that encodes a boolean is neither 0 nor 1.
    InvalidBooleanByte(u8),
    /// A folder's coders leave no output stream unbound, or fewer input
    /// streams than bind pairs.
    StreamCountUnderflow,
    FilesEmptyFileBeforeFilesEmptyStream,
    FilesAntiBeforeFilesEmptyStream,
    DummyNotAllZeroes,
    CouldNotDetermineNumFolders,
    CouldNotDetermineNumUnpackStreams,
    Unsupported(UnsupportedFeature),
}

/// The error returned by every decoder: what went wrong, in which section,
/// and where.
#[derive(Debug, Clone, Copy, PartialEq, Eq, Structural)]
pub struct SevenZParserError {
    pub kind: SevenZParserErrorKind,
    /// The marker of the innermost section in which decoding stopped; none
    /// outside the sections, as in the signature header.
    pub section: Option<PropertyID>,
    /// How many bytes of the decoder's input were still unread at the start
    /// of the offending field. The offset of that field is the input's
    /// length minus `remaining`.
    pub remaining: usize,
}

/// The error of kind `kind` raised outside any section with `remaining`
/// bytes unread.
pub open spec fn fail_with(kind: SevenZParserErrorKind, remaining: nat) -> SevenZParserError {
    SevenZParserError { kind, section: None, remaining: remaining as usize }
}

impl SevenZParserError {
    /// An error raised outside any section.
    pub fn new(kind: SevenZParserErrorKind, remaining: usize) -> (e: Self)
        ensures
            e == fail_with(kind, remaining as nat),
    {
        SevenZParserError { kind, section: None, remaining }
    }

    /// The error as it is reported from within the section `id`: an error
    /// that names no section yet names this one.
    pub open spec fn spec_within(self, id: PropertyID) -> SevenZParserError {
        match self.section {
            Some(_) => self,
            None => SevenZParserError {
                kind: self.kind,
                section: Some(id),
                remaining: self.remaining,
            },
        }
    }

    /// The error as it is reported from within the section `id`.
    pub fn within(self, id: PropertyID) -> (e: SevenZParserError)
        ensures
            e == self.spec_within(id),
    {
        match self.section {
            Some(_) => self,
            None => SevenZParserError {
                kind: self.kind,
                section: Some(id),
                remaining: self.remaining,
            },
        }
    }
}

/// What a decoder yields on a byte sequence: the unread rest and the decoded
/// value, or the error.
pub type Decoded<T> = Result<(Seq<u8>, T), SevenZParserError>;

/// What the executable decoders return.
pub type SevenZResult<'a, T> = Result<(&'a [u8], T), SevenZParserError>;

/// The error of kind `kind` raised outside any section with all of `s`
/// still unread.
pub open spec fn fail_at(kind: SevenZParserErrorKind, s: Seq<u8>) -> SevenZParserError {
    fail_with(kind, s.len())
}

/// What `d` is when it was decoded as the section `id`: its error, if it is
/// one that names no section yet, names this one.
pub open spec fn in_section<T>(id: PropertyID, d: Decoded<T>) -> Decoded<T> {
    match d {
        Ok(decoded) => Ok(decoded),
        Err(e) => Err(e.spec_within(id)),
    }
}

/// Marks the error of `r`, if it is one that names no section yet, as one
/// of the section `id`.
pub fn mark_section<'a, T>(id: PropertyID, r: SevenZResult<'a, T>) -> (marked: SevenZResult<
    'a,
    T,
>)
    ensures
        match (r, marked) {
            (Ok(decoded), Ok(same)) => decoded == same,
            (Err(e), Err(within)) => within == e.spec_within(id),
            _ => false,
        },
{
    match r {
        Ok(decoded) => Ok(decoded),
        Err(e) => Err(e.within(id)),
    }
}

/// Whether the outcome `d` lies within `s`: what it left unread is no longer
/// than `s`, or the place of its error is one of `s`.
pub open spec fn in_bounds<T>(d: Decoded<T>, s: Seq<u8>) -> bool {
    match d {
        Ok((rest, _)) => rest.len() <= s.len(),
        Err(e) => e.remaining <= s.len(),
    }
}

/// Whether `rest` is an end of `s`: what stands in `s` from some place on.
#[verifier::opaque]
pub open spec fn is_end_of(rest: Seq<u8>, s: Seq<u8>) -> bool {
    rest.len() <= s.len() && rest == s.skip(s.len() - rest.len())
}

/// Whether what `d` left unread is an end of `s`.
pub open spec fn leaves_end<T>(d: Decoded<T>, s: Seq<u8>) -> bool {
    d matches Ok((rest, _)) ==> is_end_of(rest, s)
}

/// What stands in a sequence behind its first `n` bytes is an end of it.
pub proof fn lemma_skip_is_end(s: Seq<u8>, n: int)
    requires
        0 <= n <= s.len(),
    ensures
        is_end_of(s.skip(n), s),
{
    reveal(is_end_of);
}

/// An end of an end is an end.
pub proof fn lemma_end_of_end(rest: Seq<u8>, mid: Seq<u8>, s: Seq<u8>)
    requires
        is_end_of(rest, mid),
        is_end_of(mid, s),
    ensures
        is_end_of(rest, s),
{
    reveal(is_end_of);
    assert(s.skip(s.len() - mid.len()).skip(mid.len() - rest.len()) =~= s.skip(
        s.len() - rest.len(),
    ));
}

/// What a decoder leaves that ran on an end of `s` is an end of `s`.
pub proof fn lemma_leaves_end_of_end<T>(d: Decoded<T>, mid: Seq<u8>, s: Seq<u8>)
    requires
        leaves_end(d, mid),
        is_end_of(mid, s),
    ensures
        leaves_end(d, s),
{
    if let Ok((rest, _)) = d {
        lemma_end_of_end(rest, mid, s);
    }
}

/// `r` is the executable counterpart of `d`: the same error, or a rest and a
/// value whose models are those of `d`.
pub open spec fn decodes<T: View>(r: SevenZResult<T>, d: Decoded<T::V>) -> bool {
    match (r, d) {
        (Ok((rest, value)), Ok((srest, svalue))) => rest@ == srest && value@ == svalue,
        (Err(e), Err(se)) => e == se,
        _ => false,
    }
}

/// As `decodes`, for a value that may be absent.
pub open spec fn decodes_opt<T: View>(
    r: SevenZResult<Option<T>>,
    d: Decoded<Option<T::V>>,
) -> bool {
    match (r, d) {
        (Ok((rest, Some(value))), Ok((srest, Some(svalue)))) => rest@ == srest && value@
            == svalue,
        (Ok((rest, None)), Ok((srest, None))) => rest@ == srest,
        (Err(e), Err(se)) => e == se,
        _ => false,
    }
}

/// As `decodes`, for a vector of values that have models of their own.
pub open spec fn decodes_each<T: View>(r: SevenZResult<Vec<T>>, d: Decoded<Seq<T::V>>) -> bool {
    match (r, d) {
        (Ok((rest, values)), Ok((srest, svalues))) => rest@ == srest && seq_view(values@)
            == svalues,
        (Err(e), Err(se)) => e == se,
        _ => false,
    }
}

} // verus!

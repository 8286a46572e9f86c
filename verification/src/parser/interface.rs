//! The archive as a list of files: for each its name, its times, and where
//! its bytes lie.

pub mod archive;
pub mod file;
pub mod streams;

use crate::parser::err::{fail_with, SevenZParserError};
use crate::parser::interface::archive::{spec_high_level, HighLevelArchive, HighLevelArchiveView};
use crate::parser::parsers::header::{archive, lemma_archive_in_bounds, spec_archive};
use crate::parser::parsers::spec_signature_header;
use vstd::prelude::*;

verus! {

/// What an archive is, as a list of files: the archive is decoded, then
/// flattened. An error of flattening is reported at the end of the input.
pub open spec fn spec_parse(s: Seq<u8>) -> Result<HighLevelArchiveView, SevenZParserError> {
    match spec_archive(s) {
        Err(e) => Err(e),
        Ok((_, archive)) => match spec_high_level(archive) {
            Err(kind) => Err(fail_with(kind, 0)),
            Ok(files) => Ok(files),
        },
    }
}

/// An error of decoding an archive lies within the archive: its offset is
/// the length of the archive minus the bytes that were still unread.
pub proof fn lemma_parse_error_in_bounds(s: Seq<u8>)
    ensures
        spec_parse(s) matches Err(e) ==> e.remaining <= s.len(),
{
    lemma_archive_in_bounds(s);
}

/// An archive whose signature header is refused is refused with the same
/// error, before anything of its header is looked at.
pub proof fn lemma_parse_stops_at_signature_header(s: Seq<u8>)
    requires
        spec_signature_header(s) is Err,
    ensures
        spec_parse(s) == Err::<HighLevelArchiveView, SevenZParserError>(
            spec_signature_header(s)->Err_0,
        ),
{
}

/// Decodes the archive that `input` holds.
pub fn parse(input: &[u8]) -> (r: Result<HighLevelArchive, SevenZParserError>)
    ensures
        match (r, spec_parse(input@)) {
            (Ok(archive), Ok(sarchive)) => archive@ == sarchive,
            (Err(e), Err(se)) => e == se,
            _ => false,
        },
{
    let (_, archive) = archive(input)?;
    match HighLevelArchive::from_low_level_archive(&archive) {
        Ok(files) => Ok(files),
        Err(kind) => Err(SevenZParserError::new(kind, 0)),
    }
}

} // verus!

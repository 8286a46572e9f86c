//! Reading a file in one call.

use crate::parser::err::SevenZParserError;
use crate::parser::interface::archive::HighLevelArchiveView;
use crate::parser::interface::file::FileView;
use crate::parser::interface::{parse, spec_parse};
use crate::read::err::{Error, ErrorView};
use crate::read::iter::ArchiveIterator;
use crate::read::spec_extract;
use vstd::prelude::*;

verus! {

/// The position at or behind `from` of the first of `files` that is named
/// `name`.
pub open spec fn position_of_name(files: Seq<FileView>, name: Seq<char>, from: int) -> Option<int>
    decreases files.len() - from,
{
    if from < 0 || from >= files.len() {
        None
    } else if files[from].name == name {
        Some(from)
    } else {
        position_of_name(files, name, from + 1)
    }
}

/// The contents of the file named `name` in the archive `data`: the archive
/// is decoded, the first file of that name is looked up, and its bytes are
/// extracted.
pub open spec fn spec_extract_file(name: Seq<char>, data: Seq<u8>) -> Result<Seq<u8>, ErrorView> {
    match spec_parse(data) {
        Err(e) => Err(ErrorView::Parser(e)),
        Ok(archive) => match position_of_name(archive.files, name, 0) {
            None => Err(ErrorView::NoSuchFileName(name)),
            Some(i) => spec_extract(archive.files[i], data),
        },
    }
}

/// Extracts the file with the given `name` into a data buffer.
///
/// The whole archive is decoded for each file that is extracted this way.
pub fn extract_file(name: &str, archive_data: &[u8]) -> (r: Result<Vec<u8>, Error>)
    ensures
        match (r, spec_extract_file(name@, archive_data@)) {
            (Ok(bytes), Ok(sbytes)) => bytes@ == sbytes,
            (Err(e), Err(se)) => e@ == se,
            _ => false,
        },
{
    let ar = match parse(archive_data) {
        Ok(ar) => ar,
        Err(e) => {
            return Err(Error::Parser(e));
        },
    };
    let wanted = name.to_owned();
    let mut files = ArchiveIterator::new(&ar);
    loop
        invariant
            files.ar == &ar,
            files.position <= ar.files@.len(),
            spec_parse(archive_data@) == Ok::<HighLevelArchiveView, SevenZParserError>(ar@),
            wanted@ == name@,
            position_of_name(ar@.files, name@, 0) == position_of_name(
                ar@.files,
                name@,
                files.position as int,
            ),
        decreases ar.files@.len() - files.position,
    {
        match files.next_handle(archive_data) {
            None => {
                return Err(Error::NoSuchFileName(wanted));
            },
            Some(file) => {
                if file.name() == wanted {
                    return file.extract_contents_vec();
                }
            },
        }
    }
}

} // verus!

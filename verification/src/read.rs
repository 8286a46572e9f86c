//! Reading the files of an archive.

pub mod decode;
pub mod err;
pub mod iter;
pub mod simplistic;

pub use crate::read::err::Error;
pub use crate::read::iter::ArchiveIterator;
pub use crate::read::simplistic::extract_file;

use crate::parser::err::{fail_with, SevenZParserError, SevenZParserErrorKind};
use crate::parser::interface::archive::HighLevelArchive;
use crate::parser::interface::file::{File, FileView};
use crate::parser::interface::streams::clone_stream;
use crate::parser::types::header::SIGNATURE_HEADER_SIZE_BYTES;
use crate::read::decode::{decode_file, spec_decode_file};
use crate::read::err::ErrorView;
use vstd::prelude::*;

verus! {

/// A file within an archive. The handle holds what the archive records of
/// the file, not its bytes, so it lives no longer than the archive's bytes.
pub struct FileHandle<'a> {
    pub underlying: File,
    /// The whole archive.
    pub archive_raw: &'a [u8],
}

/// The number of bytes of `data` behind the signature header.
pub open spec fn data_region_len(data: Seq<u8>) -> usize {
    if data.len() >= SIGNATURE_HEADER_SIZE_BYTES {
        (data.len() - SIGNATURE_HEADER_SIZE_BYTES) as usize
    } else {
        0
    }
}

/// The bytes of `file` in the archive `data`, decoded. A stream that does
/// not lie within the archive is reported as truncated at the start of the
/// data region.
pub open spec fn spec_extract(file: FileView, data: Seq<u8>) -> Result<Seq<u8>, ErrorView> {
    if SIGNATURE_HEADER_SIZE_BYTES + file.stream.offset + file.stream.size > data.len() {
        Err(
            ErrorView::Parser(
                fail_with(SevenZParserErrorKind::Truncated, data_region_len(data) as nat),
            ),
        )
    } else {
        match spec_decode_file(
            data.subrange(
                SIGNATURE_HEADER_SIZE_BYTES + file.stream.offset,
                SIGNATURE_HEADER_SIZE_BYTES + file.stream.offset + file.stream.size,
            ),
            file.stream,
        ) {
            Ok(bytes) => Ok(bytes),
            Err(e) => Err(ErrorView::CodecFailed(e)),
        }
    }
}

impl<'a> FileHandle<'a> {
    /// The handle of file `index` of an archive, whose bytes are
    /// `archive_raw`.
    pub fn new(ar: &HighLevelArchive, archive_raw: &'a [u8], index: usize) -> (handle: FileHandle<
        'a,
    >)
        requires
            index < ar.files@.len(),
        ensures
            handle.underlying@ == ar.files@[index as int]@,
            handle.archive_raw@ == archive_raw@,
    {
        let file = &ar.files[index];
        let underlying = File {
            ctime: file.ctime,
            atime: file.atime,
            mtime: file.mtime,
            name: file.name.clone(),
            stream: clone_stream(&file.stream),
        };
        FileHandle { underlying, archive_raw }
    }

    /// Extracts the file's contents into a vector, all at once.
    pub fn extract_contents_vec(&self) -> (r: Result<Vec<u8>, Error>)
        ensures
            match (r, spec_extract(self.underlying@, self.archive_raw@)) {
                (Ok(bytes), Ok(sbytes)) => bytes@ == sbytes,
                (Err(e), Err(se)) => e@ == se,
                _ => false,
            },
    {
        if !self.underlying.stream_within(self.archive_raw) {
            let len = self.archive_raw.len();
            let remaining = if len >= SIGNATURE_HEADER_SIZE_BYTES {
                len - SIGNATURE_HEADER_SIZE_BYTES
            } else {
                0
            };
            return Err(
                Error::Parser(SevenZParserError::new(SevenZParserErrorKind::Truncated, remaining)),
            );
        }
        let contents_packed = self.underlying.subslice_raw(self.archive_raw);
        match decode_file(contents_packed, &self.underlying.stream) {
            Ok(contents_unpacked) => Ok(contents_unpacked),
            Err(e) => Err(Error::CodecFailed(e)),
        }
    }

    /// The name of the file.
    pub fn name(&self) -> (name: String)
        ensures
            name@ == self.underlying@.name,
    {
        self.underlying.name.clone()
    }
}

} // verus!

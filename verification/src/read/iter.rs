//! Going through the files of an archive.

use crate::parser::interface::archive::HighLevelArchive;
use crate::read::FileHandle;
use vstd::prelude::*;

verus! {

/// Goes through the files of an archive, in order. A file's bytes are
/// extracted only when its contents are asked for.
#[derive(Debug, Clone)]
pub struct ArchiveIterator<'a> {
    pub ar: &'a HighLevelArchive,
    /// The number of files handed out so far.
    pub position: usize,
}

impl<'a> ArchiveIterator<'a> {
    /// An iterator that stands before the first file of `ar`.
    pub fn new(ar: &'a HighLevelArchive) -> (iter: ArchiveIterator<'a>)
        ensures
            iter.ar == ar,
            iter.position == 0,
    {
        ArchiveIterator { ar, position: 0 }
    }

    /// The handle of the next file, over the archive's bytes `archive_raw`;
    /// nothing once all files have been handed out.
    pub fn next_handle(&mut self, archive_raw: &'a [u8]) -> (r: Option<FileHandle<'a>>)
        ensures
            final(self).ar == old(self).ar,
            old(self).position < old(self).ar.files@.len() ==> final(self).position == old(
                self,
            ).position + 1 && r is Some && r->0.underlying@
                == old(self).ar.files@[old(self).position as int]@ && r->0.archive_raw@
                == archive_raw@,
            old(self).position >= old(self).ar.files@.len() ==> final(self).position == old(
                self,
            ).position && r is None,
    {
        if self.position < self.ar.files.len() {
            let handle = FileHandle::new(self.ar, archive_raw, self.position);
            self.position = self.position + 1;
            Some(handle)
        } else {
            None
        }
    }
}

} // verus!

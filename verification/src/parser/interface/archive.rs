//! The archive as a list of files.

use crate::parser::err::{SevenZParserErrorKind, UnsupportedFeature};
use crate::parser::interface::file::{
    file_at, names_kind, names_property, spec_file_at, File, FileView,
};
use crate::parser::interface::streams::{
    get_file_streams_info, spec_file_streams, FileStreamInfo, FileStreamInfoView,
};
use crate::parser::types::files_info::{FilesInfo, FilesInfoView};
use crate::parser::types::header::{Header, HeaderView};
use crate::parser::types::{lemma_seq_view_push, seq_view, Archive, ArchiveView, Either};
use vstd::prelude::*;

verus! {

/// What the decoder hands out in the end: the files of an archive.
#[derive(Debug, Clone, PartialEq, Eq)]
pub struct HighLevelArchive {
    pub files: Vec<File>,
}

/// The model of a `HighLevelArchive`.
pub struct HighLevelArchiveView {
    pub files: Seq<FileView>,
}

impl View for HighLevelArchive {
    type V = HighLevelArchiveView;

    open spec fn view(&self) -> HighLevelArchiveView {
        HighLevelArchiveView { files: seq_view(self.files@) }
    }
}

/// The streams of the folders of the main streams; none where the header
/// has no main streams, or these no section on folders.
pub open spec fn spec_main_streams(header: HeaderView) -> Result<
    Seq<FileStreamInfoView>,
    SevenZParserErrorKind,
> {
    match header.main_streams {
        Some(streams) => match streams.coders_info {
            Some(coders) => spec_file_streams(coders),
            None => Ok(Seq::empty()),
        },
        None => Ok(Seq::empty()),
    }
}

/// The first `n` files, or the first error among them.
pub open spec fn spec_files_upto(
    fi: FilesInfoView,
    streams: Seq<FileStreamInfoView>,
    n: nat,
) -> Result<Seq<FileView>, SevenZParserErrorKind>
    decreases n,
{
    if n == 0 {
        Ok(Seq::empty())
    } else {
        match spec_files_upto(fi, streams, (n - 1) as nat) {
            Err(e) => Err(e),
            Ok(files) => match spec_file_at(fi, streams, n - 1) {
                Err(e) => Err(e),
                Ok(file) => Ok(files.push(file)),
            },
        }
    }
}

/// The files of an archive: one for each name that the section on files
/// lists, none where there is no such section or it has no names. File `i`
/// has stream `i` of the main streams. A packed header is refused as
/// unsupported; so is what the folders or a file do not support.
pub open spec fn spec_high_level(archive: ArchiveView) -> Result<
    HighLevelArchiveView,
    SevenZParserErrorKind,
> {
    match archive.header_or_packed_header {
        Either::Right(_) => Err(
            SevenZParserErrorKind::Unsupported(UnsupportedFeature::EncodedHeader),
        ),
        Either::Left(header) => match header.files {
            None => Ok(HighLevelArchiveView { files: Seq::empty() }),
            Some(fi) => if fi.property(names_kind()) is None {
                Ok(HighLevelArchiveView { files: Seq::empty() })
            } else {
                match spec_main_streams(header) {
                    Err(e) => Err(e),
                    Ok(streams) => match spec_files_upto(fi, streams, fi.num_files as nat) {
                        Err(e) => Err(e),
                        Ok(files) => Ok(HighLevelArchiveView { files }),
                    },
                }
            },
        },
    }
}

/// An error among the first `m` files is the error of any more of them.
pub proof fn lemma_files_upto_err_persists(
    fi: FilesInfoView,
    streams: Seq<FileStreamInfoView>,
    m: nat,
    n: nat,
)
    requires
        m <= n,
        spec_files_upto(fi, streams, m) is Err,
    ensures
        spec_files_upto(fi, streams, n) == spec_files_upto(fi, streams, m),
    decreases n,
{
    if m < n {
        lemma_files_upto_err_persists(fi, streams, m, (n - 1) as nat);
    }
}

fn main_streams(header: &Header) -> (r: Result<Vec<FileStreamInfo>, SevenZParserErrorKind>)
    requires
        header@.wf(),
    ensures
        match (r, spec_main_streams(header@)) {
            (Ok(streams), Ok(sstreams)) => seq_view(streams@) == sstreams,
            (Err(e), Err(se)) => e == se,
            _ => false,
        },
{
    let none: Vec<FileStreamInfo> = Vec::new();
    proof {
        assert(seq_view(none@) =~= Seq::<FileStreamInfoView>::empty());
    }
    match &header.main_streams {
        Some(streams) => match &streams.coders_info {
            Some(coders) => get_file_streams_info(coders),
            None => Ok(none),
        },
        None => Ok(none),
    }
}

fn files_of(fi: &FilesInfo, streams: &Vec<FileStreamInfo>) -> (r: Result<
    Vec<File>,
    SevenZParserErrorKind,
>)
    requires
        fi@.wf(),
    ensures
        match (r, spec_files_upto(fi@, seq_view(streams@), fi.num_files as nat)) {
            (Ok(files), Ok(sfiles)) => seq_view(files@) == sfiles,
            (Err(e), Err(se)) => e == se,
            _ => false,
        },
{
    let mut files: Vec<File> = Vec::new();
    let mut i: usize = 0;
    proof {
        assert(seq_view(files@) =~= Seq::<FileView>::empty());
    }
    while i < fi.num_files
        invariant
            i <= fi.num_files,
            fi@.wf(),
            spec_files_upto(fi@, seq_view(streams@), i as nat) == Ok::<
                Seq<FileView>,
                SevenZParserErrorKind,
            >(seq_view(files@)),
        decreases fi.num_files - i,
    {
        match file_at(fi, streams, i) {
            Err(e) => {
                proof {
                    lemma_files_upto_err_persists(
                        fi@,
                        seq_view(streams@),
                        (i + 1) as nat,
                        fi.num_files as nat,
                    );
                }
                return Err(e);
            },
            Ok(file) => {
                proof {
                    lemma_seq_view_push(files@, file);
                }
                files.push(file);
            },
        }
        i = i + 1;
    }
    Ok(files)
}

impl HighLevelArchive {
    /// Flattens the metadata tree of an archive into its files.
    pub fn from_low_level_archive(ar: &Archive) -> (r: Result<
        HighLevelArchive,
        SevenZParserErrorKind,
    >)
        requires
            ar@.wf(),
        ensures
            match (r, spec_high_level(ar@)) {
                (Ok(archive), Ok(sarchive)) => archive@ == sarchive,
                (Err(e), Err(se)) => e == se,
                _ => false,
            },
    {
        let hdr = match &ar.header_or_packed_header {
            Either::Right(_) => {
                return Err(SevenZParserErrorKind::Unsupported(UnsupportedFeature::EncodedHeader));
            },
            Either::Left(hdr) => hdr,
        };
        let none: Vec<File> = Vec::new();
        proof {
            assert(seq_view(none@) =~= Seq::<FileView>::empty());
        }
        let fi = match &hdr.files {
            None => {
                return Ok(HighLevelArchive { files: none });
            },
            Some(fi) => fi,
        };
        if fi.get_property(names_property()).is_none() {
            return Ok(HighLevelArchive { files: none });
        }
        let streams = main_streams(hdr)?;
        let files = files_of(fi, &streams)?;
        Ok(HighLevelArchive { files })
    }
}

} // verus!

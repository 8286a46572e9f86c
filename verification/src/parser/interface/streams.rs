//! Where each folder's stream lies.

use crate::parser::err::{SevenZConversionError, SevenZParserErrorKind, UnsupportedFeature};
use crate::parser::parsers::coders_info::lemma_total_folder_out_streams_grows;
use crate::parser::parsers::streams_info::sum_counts;
use crate::parser::types::coders_info::{
    total_folder_out_streams, total_out_streams, Coder, CoderView, CodersInfo, CodersInfoView,
    FolderView,
};
use crate::parser::types::{lemma_seq_view_push, seq_view, Either};
use vstd::prelude::*;
use vstd::slice::slice_to_vec;

verus! {

/// A stream of decoded bytes: the coder that yields it, where its packed
/// bytes begin in the data region, their number, and the stream's checksum.
#[derive(Debug, Clone, PartialEq, Eq)]
pub struct FileStreamInfo {
    pub coder: Coder,
    pub offset: u64,
    pub size: u64,
    pub crc: u32,
}

/// The model of a `FileStreamInfo`.
pub struct FileStreamInfoView {
    pub coder: CoderView,
    pub offset: u64,
    pub size: u64,
    pub crc: u32,
}

impl View for FileStreamInfo {
    type V = FileStreamInfoView;

    open spec fn view(&self) -> FileStreamInfoView {
        FileStreamInfoView {
            coder: self.coder@,
            offset: self.offset,
            size: self.size,
            crc: self.crc,
        }
    }
}

/// The stream of folder `i`. The folder must consist of a single coder with
/// one input and one output. Its stream begins where the streams of the
/// folders before it end, has the size that the section on folders gives
/// for it, and the folder's digest as checksum, or zero without digests.
pub open spec fn spec_folder_stream(
    info: CodersInfoView,
    folders: Seq<FolderView>,
    i: int,
) -> Result<FileStreamInfoView, SevenZParserErrorKind> {
    if folders[i].coders.len() != 1 {
        Err(SevenZParserErrorKind::Unsupported(UnsupportedFeature::MultiCoderFolder))
    } else if folders[i].coders[0].complex is Some {
        Err(SevenZParserErrorKind::Unsupported(UnsupportedFeature::ComplexCoder))
    } else if sum_counts(info.streams_unpack_sizes, i as nat) > u64::MAX {
        Err(SevenZParserErrorKind::ConversionFailure(SevenZConversionError::ToUsize))
    } else {
        Ok(
            FileStreamInfoView {
                coder: folders[i].coders[0],
                offset: sum_counts(info.streams_unpack_sizes, i as nat) as u64,
                size: info.streams_unpack_sizes[i],
                crc: match info.folders_unpack_digests {
                    Some(digests) => digests[i],
                    None => 0,
                },
            },
        )
    }
}

/// The streams of the first `n` folders, or the first error among them.
pub open spec fn spec_streams_upto(
    info: CodersInfoView,
    folders: Seq<FolderView>,
    n: nat,
) -> Result<Seq<FileStreamInfoView>, SevenZParserErrorKind>
    decreases n,
{
    if n == 0 {
        Ok(Seq::empty())
    } else {
        match spec_streams_upto(info, folders, (n - 1) as nat) {
            Err(e) => Err(e),
            Ok(streams) => match spec_folder_stream(info, folders, n - 1) {
                Err(e) => Err(e),
                Ok(stream) => Ok(streams.push(stream)),
            },
        }
    }
}

/// The streams of all folders, in order. Folders that are kept in an
/// auxiliary stream are refused as unsupported.
pub open spec fn spec_file_streams(info: CodersInfoView) -> Result<
    Seq<FileStreamInfoView>,
    SevenZParserErrorKind,
> {
    match info.folders_or_data_stream_index {
        Either::Left(_) => Err(
            SevenZParserErrorKind::Unsupported(UnsupportedFeature::ExternalData),
        ),
        Either::Right(folders) => spec_streams_upto(info, folders, folders.len()),
    }
}

/// An error among the first `m` folders is the error of any more of them.
pub proof fn lemma_streams_upto_err_persists(
    info: CodersInfoView,
    folders: Seq<FolderView>,
    m: nat,
    n: nat,
)
    requires
        m <= n,
        spec_streams_upto(info, folders, m) is Err,
    ensures
        spec_streams_upto(info, folders, n) == spec_streams_upto(info, folders, m),
    decreases n,
{
    if m < n {
        lemma_streams_upto_err_persists(info, folders, m, (n - 1) as nat);
    }
}

/// There is one stream for each folder.
pub proof fn lemma_streams_upto_len(info: CodersInfoView, folders: Seq<FolderView>, n: nat)
    ensures
        spec_streams_upto(info, folders, n) matches Ok(streams) ==> streams.len() == n,
    decreases n,
{
    if n > 0 {
        lemma_streams_upto_len(info, folders, (n - 1) as nat);
    }
}

fn clone_bytes(bytes: &Vec<u8>) -> (r: Vec<u8>)
    ensures
        r@ == bytes@,
{
    slice_to_vec(bytes.as_slice())
}

/// A copy of `coder`.
pub fn clone_coder(coder: &Coder) -> (r: Coder)
    ensures
        r@ == coder@,
{
    Coder {
        complex: coder.complex,
        attrs: match &coder.attrs {
            Some(attrs) => Some(clone_bytes(attrs)),
            None => None,
        },
        id: clone_bytes(&coder.id),
    }
}

/// A copy of `stream`.
pub fn clone_stream(stream: &FileStreamInfo) -> (r: FileStreamInfo)
    ensures
        r@ == stream@,
{
    FileStreamInfo {
        coder: clone_coder(&stream.coder),
        offset: stream.offset,
        size: stream.size,
        crc: stream.crc,
    }
}

/// Retrieves the stream of each folder, for archives in which each file is
/// the whole output of a folder of its own.
pub fn get_file_streams_info(ci: &CodersInfo) -> (r: Result<
    Vec<FileStreamInfo>,
    SevenZParserErrorKind,
>)
    requires
        ci@.wf(),
    ensures
        match (r, spec_file_streams(ci@)) {
            (Ok(streams), Ok(sstreams)) => seq_view(streams@) == sstreams,
            (Err(e), Err(se)) => e == se,
            _ => false,
        },
        r matches Ok(streams) ==> streams@.len() == ci.num_folders,
{
    proof {
        if let Either::Right(folders) = ci@.folders_or_data_stream_index {
            lemma_streams_upto_len(ci@, folders, folders.len());
        }
    }
    let folders = match &ci.folders_or_data_stream_index {
        Either::Left(_) => {
            return Err(SevenZParserErrorKind::Unsupported(UnsupportedFeature::ExternalData));
        },
        Either::Right(folders) => folders,
    };
    let ghost info = ci@;
    let ghost sfolders = seq_view(folders@);
    let mut res: Vec<FileStreamInfo> = Vec::new();
    // Where the next stream begins, as long as that fits in 64 bits.
    let mut offset: Option<u64> = Some(0);
    let mut i: usize = 0;
    proof {
        assert(seq_view(res@) =~= Seq::<FileStreamInfoView>::empty());
    }
    while i < folders.len()
        invariant
            i <= folders@.len(),
            info == ci@,
            info.wf(),
            sfolders == seq_view(folders@),
            info.folders_or_data_stream_index == Either::<u64, Seq<FolderView>>::Right(sfolders),
            spec_streams_upto(info, sfolders, i as nat) == Ok::<
                Seq<FileStreamInfoView>,
                SevenZParserErrorKind,
            >(seq_view(res@)),
            total_folder_out_streams(sfolders, i as nat) == i,
            match offset {
                Some(o) => o == sum_counts(info.streams_unpack_sizes, i as nat),
                None => sum_counts(info.streams_unpack_sizes, i as nat) > u64::MAX,
            },
        decreases folders@.len() - i,
    {
        let folder = &folders[i];
        if folder.coders.len() != 1 {
            proof {
                lemma_streams_upto_err_persists(info, sfolders, (i + 1) as nat, sfolders.len());
            }
            return Err(SevenZParserErrorKind::Unsupported(UnsupportedFeature::MultiCoderFolder));
        }
        let coder = &folder.coders[0];
        if coder.complex.is_some() {
            proof {
                lemma_streams_upto_err_persists(info, sfolders, (i + 1) as nat, sfolders.len());
            }
            return Err(SevenZParserErrorKind::Unsupported(UnsupportedFeature::ComplexCoder));
        }
        let start = match offset {
            None => {
                proof {
                    lemma_streams_upto_err_persists(
                        info,
                        sfolders,
                        (i + 1) as nat,
                        sfolders.len(),
                    );
                }
                return Err(
                    SevenZParserErrorKind::ConversionFailure(SevenZConversionError::ToUsize),
                );
            },
            Some(o) => o,
        };
        proof {
            reveal_with_fuel(total_out_streams, 2);
            assert(sfolders[i as int].total_out() == 1);
            lemma_total_folder_out_streams_grows(sfolders, (i + 1) as nat, sfolders.len());
        }
        let size = ci.streams_unpack_sizes[i];
        let crc = match &ci.folders_unpack_digests {
            Some(digests) => digests[i],
            None => 0,
        };
        let stream = FileStreamInfo { coder: clone_coder(coder), offset: start, size, crc };
        proof {
            lemma_seq_view_push(res@, stream);
        }
        res.push(stream);
        offset = if size <= u64::MAX - start {
            Some(start + size)
        } else {
            None
        };
        i = i + 1;
    }
    Ok(res)
}

} // verus!

//! Coders, and the folders that wire them together.

use crate::parser::types::{opt_view, seq_view, Either};
use vstd::prelude::*;

verus! {

/// The stream counts of a coder that has more than one input or output.
#[derive(Debug, Clone, Copy, PartialEq, Eq, Structural)]
pub struct CoderComplex {
    pub num_in_streams: u64,
    pub num_out_streams: u64,
}

impl View for CoderComplex {
    type V = CoderComplex;

    open spec fn view(&self) -> CoderComplex {
        *self
    }
}

/// One algorithm at work in a folder.
#[derive(Debug, Clone, PartialEq, Eq)]
pub struct Coder {
    /// Absent for a coder with one input and one output stream.
    pub complex: Option<CoderComplex>,
    /// Parameters that the algorithm defines.
    pub attrs: Option<Vec<u8>>,
    /// Names the algorithm.
    pub id: Vec<u8>,
}

/// The model of a `Coder`.
pub struct CoderView {
    pub complex: Option<CoderComplex>,
    pub attrs: Option<Seq<u8>>,
    pub id: Seq<u8>,
}

impl View for Coder {
    type V = CoderView;

    open spec fn view(&self) -> CoderView {
        CoderView { complex: self.complex, attrs: opt_view(self.attrs), id: self.id@ }
    }
}

impl CoderView {
    /// The number of streams that the coder takes in: one, unless it says
    /// otherwise.
    pub open spec fn num_in_streams(self) -> nat {
        match self.complex {
            Some(c) => c.num_in_streams as nat,
            None => 1,
        }
    }

    /// The number of streams that the coder puts out: one, unless it says
    /// otherwise.
    pub open spec fn num_out_streams(self) -> nat {
        match self.complex {
            Some(c) => c.num_out_streams as nat,
            None => 1,
        }
    }
}

impl Coder {
    /// The number of streams that the coder puts out.
    pub fn get_num_out_streams(&self) -> (n: usize)
        requires
            self@.num_out_streams() <= usize::MAX,
        ensures
            n == self@.num_out_streams(),
    {
        match self.complex {
            Some(c) => c.num_out_streams as usize,
            None => 1,
        }
    }
}

/// The input streams of the first `n` of `coders`, taken together.
pub open spec fn total_in_streams(coders: Seq<CoderView>, n: nat) -> nat
    decreases n,
{
    if n == 0 {
        0
    } else {
        total_in_streams(coders, (n - 1) as nat) + coders[n - 1].num_in_streams()
    }
}

/// The output streams of the first `n` of `coders`, taken together.
pub open spec fn total_out_streams(coders: Seq<CoderView>, n: nat) -> nat
    decreases n,
{
    if n == 0 {
        0
    } else {
        total_out_streams(coders, (n - 1) as nat) + coders[n - 1].num_out_streams()
    }
}

/// Coders that together turn packed streams into one stream.
#[derive(Debug, Clone, PartialEq, Eq)]
pub struct Folder {
    pub coders: Vec<Coder>,
    /// Each pair, an input index and an output index, feeds one coder's
    /// output to another's input.
    pub bind_pairs: Vec<(u64, u64)>,
    /// The inputs that are read from packed streams.
    pub packed_streams_indices: Option<Vec<u64>>,
}

/// The model of a `Folder`.
pub struct FolderView {
    pub coders: Seq<CoderView>,
    pub bind_pairs: Seq<(u64, u64)>,
    pub packed_streams_indices: Option<Seq<u64>>,
}

impl View for Folder {
    type V = FolderView;

    open spec fn view(&self) -> FolderView {
        FolderView {
            coders: seq_view(self.coders@),
            bind_pairs: self.bind_pairs@,
            packed_streams_indices: opt_view(self.packed_streams_indices),
        }
    }
}

impl FolderView {
    /// The input streams of all coders of the folder.
    pub open spec fn total_in(self) -> nat {
        total_in_streams(self.coders, self.coders.len())
    }

    /// The output streams of all coders of the folder.
    pub open spec fn total_out(self) -> nat {
        total_out_streams(self.coders, self.coders.len())
    }

    /// The number of inputs that are read from packed streams.
    pub open spec fn num_packed_streams(self) -> nat {
        match self.packed_streams_indices {
            Some(indices) => indices.len(),
            None => 0,
        }
    }

    /// All outputs but one are bound, and every input is either bound or
    /// read from a packed stream.
    pub open spec fn wf(self) -> bool {
        &&& self.bind_pairs.len() + 1 == self.total_out()
        &&& self.num_packed_streams() + self.bind_pairs.len() == self.total_in()
        &&& self.packed_streams_indices matches Some(indices) ==> indices.len() >= 1
    }
}

/// The output streams of the first `n` of `folders`, taken together.
pub open spec fn total_folder_out_streams(folders: Seq<FolderView>, n: nat) -> nat
    decreases n,
{
    if n == 0 {
        0
    } else {
        total_folder_out_streams(folders, (n - 1) as nat) + folders[n - 1].total_out()
    }
}

/// The folders of an archive, and the size of every stream they put out.
#[derive(Debug, Clone, PartialEq, Eq)]
pub struct CodersInfo {
    pub num_folders: usize,
    /// `Left` is the index of an auxiliary stream that holds the folders.
    pub folders_or_data_stream_index: Either<u64, Vec<Folder>>,
    pub streams_unpack_sizes: Vec<u64>,
    pub folders_unpack_digests: Option<Vec<u32>>,
}

/// The model of a `CodersInfo`.
pub struct CodersInfoView {
    pub num_folders: usize,
    pub folders_or_data_stream_index: Either<u64, Seq<FolderView>>,
    pub streams_unpack_sizes: Seq<u64>,
    pub folders_unpack_digests: Option<Seq<u32>>,
}

impl View for CodersInfo {
    type V = CodersInfoView;

    open spec fn view(&self) -> CodersInfoView {
        CodersInfoView {
            num_folders: self.num_folders,
            folders_or_data_stream_index: match self.folders_or_data_stream_index {
                Either::Left(index) => Either::Left(index),
                Either::Right(folders) => Either::Right(seq_view(folders@)),
            },
            streams_unpack_sizes: self.streams_unpack_sizes@,
            folders_unpack_digests: opt_view(self.folders_unpack_digests),
        }
    }
}

impl CodersInfoView {
    /// There are `num_folders` folders, each well-formed, a size for every
    /// output stream, and a digest for every folder if for any.
    pub open spec fn wf(self) -> bool {
        &&& self.folders_or_data_stream_index matches Either::Right(folders) ==> {
            &&& folders.len() == self.num_folders
            &&& forall|i: int| 0 <= i < folders.len() ==> (#[trigger] folders[i]).wf()
            &&& self.streams_unpack_sizes.len() == total_folder_out_streams(
                folders,
                folders.len(),
            )
        }
        &&& self.folders_unpack_digests matches Some(digests) ==> digests.len()
            == self.num_folders
    }
}

} // verus!

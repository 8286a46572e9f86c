//! How the data region divides into streams.

use crate::parser::types::coders_info::{CodersInfo, CodersInfoView};
use crate::parser::types::{opt_view, PackInfo, PackInfoView};
use vstd::prelude::*;

verus! {

/// How the output of each folder divides among files.
#[derive(Debug, Clone, PartialEq, Eq)]
pub struct SubStreamsInfo {
    pub num_unpack_streams_in_folders: Option<Vec<u64>>,
    pub unpack_sizes: Option<Vec<u64>>,
    /// Checksums of the substreams whose folder carries none.
    pub unknown_digests: Option<Vec<u32>>,
}

/// The model of a `SubStreamsInfo`.
pub struct SubStreamsInfoView {
    pub num_unpack_streams_in_folders: Option<Seq<u64>>,
    pub unpack_sizes: Option<Seq<u64>>,
    pub unknown_digests: Option<Seq<u32>>,
}

impl View for SubStreamsInfo {
    type V = SubStreamsInfoView;

    open spec fn view(&self) -> SubStreamsInfoView {
        SubStreamsInfoView {
            num_unpack_streams_in_folders: opt_view(self.num_unpack_streams_in_folders),
            unpack_sizes: opt_view(self.unpack_sizes),
            unknown_digests: opt_view(self.unknown_digests),
        }
    }
}

#[derive(Debug, Clone, PartialEq, Eq)]
pub struct StreamsInfo {
    pub pack_info: Option<PackInfo>,
    pub coders_info: Option<CodersInfo>,
    pub substreams_info: Option<SubStreamsInfo>,
}

/// The model of a `StreamsInfo`.
pub struct StreamsInfoView {
    pub pack_info: Option<PackInfoView>,
    pub coders_info: Option<CodersInfoView>,
    pub substreams_info: Option<SubStreamsInfoView>,
}

impl View for StreamsInfo {
    type V = StreamsInfoView;

    open spec fn view(&self) -> StreamsInfoView {
        StreamsInfoView {
            pack_info: opt_view(self.pack_info),
            coders_info: opt_view(self.coders_info),
            substreams_info: opt_view(self.substreams_info),
        }
    }
}

impl StreamsInfoView {
    /// The sections on packed streams and on folders are well-formed.
    pub open spec fn wf(self) -> bool {
        &&& self.pack_info matches Some(info) ==> info.wf()
        &&& self.coders_info matches Some(info) ==> info.wf()
    }
}

} // verus!

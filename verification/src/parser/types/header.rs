//! The signature header at the start of an archive, and the header proper.

use crate::parser::types::files_info::{FilesInfo, FilesInfoView};
use crate::parser::types::streams_info::{StreamsInfo, StreamsInfoView};
use crate::parser::types::{opt_view, ArchiveProperties, ArchivePropertiesView};
use vstd::prelude::*;

verus! {

/// The length of the magic bytes, the version and the start header's CRC.
pub const SIGNATURE_PREFIX_SIZE_BYTES: usize = 12;

/// The length of the start header.
pub const START_HEADER_SIZE_BYTES: usize = 20;

/// The length of the signature header, behind which the data region begins.
pub const SIGNATURE_HEADER_SIZE_BYTES: usize = 32;

/// Where the header lies behind the signature header, how long it is, and
/// its checksum.
#[derive(Debug, Clone, Copy, PartialEq, Eq, Structural)]
pub struct StartHeader {
    pub next_header_offset: u64,
    pub next_header_size: u64,
    pub next_header_crc: u32,
}

#[derive(Debug, Clone, Copy, PartialEq, Eq, Structural)]
pub struct ArchiveVersion {
    pub major: u8,
    pub minor: u8,
}

#[derive(Debug, Clone, Copy, PartialEq, Eq, Structural)]
pub struct SignatureHeader {
    pub archive_version: ArchiveVersion,
    pub start_header_crc: u32,
    pub start_header: StartHeader,
}

impl View for StartHeader {
    type V = StartHeader;

    open spec fn view(&self) -> StartHeader {
        *self
    }
}

impl View for ArchiveVersion {
    type V = ArchiveVersion;

    open spec fn view(&self) -> ArchiveVersion {
        *self
    }
}

impl View for SignatureHeader {
    type V = SignatureHeader;

    open spec fn view(&self) -> SignatureHeader {
        *self
    }
}

/// The metadata tree. Each part is present if its marker is.
#[derive(Debug, Clone, PartialEq, Eq)]
pub struct Header {
    pub archive_properties: Option<ArchiveProperties>,
    pub additional_streams: Option<StreamsInfo>,
    pub main_streams: Option<StreamsInfo>,
    pub files: Option<FilesInfo>,
}

/// The model of a `Header`.
pub struct HeaderView {
    pub archive_properties: Option<ArchivePropertiesView>,
    pub additional_streams: Option<StreamsInfoView>,
    pub main_streams: Option<StreamsInfoView>,
    pub files: Option<FilesInfoView>,
}

impl View for Header {
    type V = HeaderView;

    open spec fn view(&self) -> HeaderView {
        HeaderView {
            archive_properties: opt_view(self.archive_properties),
            additional_streams: opt_view(self.additional_streams),
            main_streams: opt_view(self.main_streams),
            files: opt_view(self.files),
        }
    }
}

impl HeaderView {
    /// The sections on streams and on files are well-formed.
    pub open spec fn wf(self) -> bool {
        &&& self.additional_streams matches Some(info) ==> info.wf()
        &&& self.main_streams matches Some(info) ==> info.wf()
        &&& self.files matches Some(info) ==> info.wf()
    }
}

/// A header that is stored as an encoded stream. Such headers are not
/// decoded, so the record holds nothing.
#[derive(Debug, Clone, Copy, PartialEq, Eq, Structural)]
pub struct PackedHeader {}

/// What describes the stream of a packed header.
#[derive(Debug, Clone, Copy, PartialEq, Eq, Structural)]
pub struct HeaderInfo {}

} // verus!

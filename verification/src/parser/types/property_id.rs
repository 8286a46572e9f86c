//! The one-byte markers that introduce the sections and fields of a header.

use vstd::prelude::*;
use vstd::std_specs::convert::TryFromSpecImpl;

verus! {

#[derive(Debug, Clone, Copy, PartialEq, Eq, Structural)]
pub enum PropertyID {
    End,
    Header,
    ArchiveProperties,
    AdditionalStreamsInfo,
    MainStreamsInfo,
    FilesInfo,
    PackInfo,
    UnPackInfo,
    SubStreamsInfo,
    Size,
    CRC,
    Folder,
    CodersUnPackSize,
    NumUnPackStream,
    EmptyStream,
    EmptyFile,
    Anti,
    Name,
    CTime,
    ATime,
    MTime,
    WinAttributes,
    Comment,
    EncodedHeader,
    StartPos,
    Dummy,
}

impl PropertyID {
    /// The byte that stands for the marker in an archive.
    pub open spec fn spec_byte(self) -> u8 {
        match self {
            PropertyID::End => 0x00,
            PropertyID::Header => 0x01,
            PropertyID::ArchiveProperties => 0x02,
            PropertyID::AdditionalStreamsInfo => 0x03,
            PropertyID::MainStreamsInfo => 0x04,
            PropertyID::FilesInfo => 0x05,
            PropertyID::PackInfo => 0x06,
            PropertyID::UnPackInfo => 0x07,
            PropertyID::SubStreamsInfo => 0x08,
            PropertyID::Size => 0x09,
            PropertyID::CRC => 0x0A,
            PropertyID::Folder => 0x0B,
            PropertyID::CodersUnPackSize => 0x0C,
            PropertyID::NumUnPackStream => 0x0D,
            PropertyID::EmptyStream => 0x0E,
            PropertyID::EmptyFile => 0x0F,
            PropertyID::Anti => 0x10,
            PropertyID::Name => 0x11,
            PropertyID::CTime => 0x12,
            PropertyID::ATime => 0x13,
            PropertyID::MTime => 0x14,
            PropertyID::WinAttributes => 0x15,
            PropertyID::Comment => 0x16,
            PropertyID::EncodedHeader => 0x17,
            PropertyID::StartPos => 0x18,
            PropertyID::Dummy => 0x19,
        }
    }

    /// The marker that the byte `b` stands for, if it is one.
    pub open spec fn of_byte(b: u8) -> Option<PropertyID> {
        if b == 0x00 {
            Some(PropertyID::End)
        } else if b == 0x01 {
            Some(PropertyID::Header)
        } else if b == 0x02 {
            Some(PropertyID::ArchiveProperties)
        } else if b == 0x03 {
            Some(PropertyID::AdditionalStreamsInfo)
        } else if b == 0x04 {
            Some(PropertyID::MainStreamsInfo)
        } else if b == 0x05 {
            Some(PropertyID::FilesInfo)
        } else if b == 0x06 {
            Some(PropertyID::PackInfo)
        } else if b == 0x07 {
            Some(PropertyID::UnPackInfo)
        } else if b == 0x08 {
            Some(PropertyID::SubStreamsInfo)
        } else if b == 0x09 {
            Some(PropertyID::Size)
        } else if b == 0x0A {
            Some(PropertyID::CRC)
        } else if b == 0x0B {
            Some(PropertyID::Folder)
        } else if b == 0x0C {
            Some(PropertyID::CodersUnPackSize)
        } else if b == 0x0D {
            Some(PropertyID::NumUnPackStream)
        } else if b == 0x0E {
            Some(PropertyID::EmptyStream)
        } else if b == 0x0F {
            Some(PropertyID::EmptyFile)
        } else if b == 0x10 {
            Some(PropertyID::Anti)
        } else if b == 0x11 {
            Some(PropertyID::Name)
        } else if b == 0x12 {
            Some(PropertyID::CTime)
        } else if b == 0x13 {
            Some(PropertyID::ATime)
        } else if b == 0x14 {
            Some(PropertyID::MTime)
        } else if b == 0x15 {
            Some(PropertyID::WinAttributes)
        } else if b == 0x16 {
            Some(PropertyID::Comment)
        } else if b == 0x17 {
            Some(PropertyID::EncodedHeader)
        } else if b == 0x18 {
            Some(PropertyID::StartPos)
        } else if b == 0x19 {
            Some(PropertyID::Dummy)
        } else {
            None
        }
    }

    /// The byte that stands for the marker in an archive.
    #[verifier::when_used_as_spec(spec_byte)]
    pub fn byte(self) -> (b: u8)
        ensures
            b == self.spec_byte(),
    {
        match self {
            PropertyID::End => 0x00,
            PropertyID::Header => 0x01,
            PropertyID::ArchiveProperties => 0x02,
            PropertyID::AdditionalStreamsInfo => 0x03,
            PropertyID::MainStreamsInfo => 0x04,
            PropertyID::FilesInfo => 0x05,
            PropertyID::PackInfo => 0x06,
            PropertyID::UnPackInfo => 0x07,
            PropertyID::SubStreamsInfo => 0x08,
            PropertyID::Size => 0x09,
            PropertyID::CRC => 0x0A,
            PropertyID::Folder => 0x0B,
            PropertyID::CodersUnPackSize => 0x0C,
            PropertyID::NumUnPackStream => 0x0D,
            PropertyID::EmptyStream => 0x0E,
            PropertyID::EmptyFile => 0x0F,
            PropertyID::Anti => 0x10,
            PropertyID::Name => 0x11,
            PropertyID::CTime => 0x12,
            PropertyID::ATime => 0x13,
            PropertyID::MTime => 0x14,
            PropertyID::WinAttributes => 0x15,
            PropertyID::Comment => 0x16,
            PropertyID::EncodedHeader => 0x17,
            PropertyID::StartPos => 0x18,
            PropertyID::Dummy => 0x19,
        }
    }

    /// Markers and the bytes `0x00..=0x19` correspond one to one.
    pub proof fn lemma_one_to_one(id: PropertyID, b: u8)
        ensures
            PropertyID::of_byte(id.spec_byte()) == Some(id),
            id.spec_byte() <= 0x19,
            PropertyID::of_byte(b) matches Some(p) ==> p.spec_byte() == b,
            PropertyID::of_byte(b).is_some() <==> b <= 0x19,
    {
    }
}

impl View for PropertyID {
    type V = PropertyID;

    open spec fn view(&self) -> PropertyID {
        *self
    }
}

impl TryFrom<u8> for PropertyID {
    type Error = ();

    /// The marker that the byte `b` stands for; an error for a byte above
    /// `0x19`.
    fn try_from(b: u8) -> (r: Result<PropertyID, ()>) {
        match b {
            0x00 => Ok(PropertyID::End),
            0x01 => Ok(PropertyID::Header),
            0x02 => Ok(PropertyID::ArchiveProperties),
            0x03 => Ok(PropertyID::AdditionalStreamsInfo),
            0x04 => Ok(PropertyID::MainStreamsInfo),
            0x05 => Ok(PropertyID::FilesInfo),
            0x06 => Ok(PropertyID::PackInfo),
            0x07 => Ok(PropertyID::UnPackInfo),
            0x08 => Ok(PropertyID::SubStreamsInfo),
            0x09 => Ok(PropertyID::Size),
            0x0A => Ok(PropertyID::CRC),
            0x0B => Ok(PropertyID::Folder),
            0x0C => Ok(PropertyID::CodersUnPackSize),
            0x0D => Ok(PropertyID::NumUnPackStream),
            0x0E => Ok(PropertyID::EmptyStream),
            0x0F => Ok(PropertyID::EmptyFile),
            0x10 => Ok(PropertyID::Anti),
            0x11 => Ok(PropertyID::Name),
            0x12 => Ok(PropertyID::CTime),
            0x13 => Ok(PropertyID::ATime),
            0x14 => Ok(PropertyID::MTime),
            0x15 => Ok(PropertyID::WinAttributes),
            0x16 => Ok(PropertyID::Comment),
            0x17 => Ok(PropertyID::EncodedHeader),
            0x18 => Ok(PropertyID::StartPos),
            0x19 => Ok(PropertyID::Dummy),
            _ => Err(()),
        }
    }
}

impl TryFromSpecImpl<u8> for PropertyID {
    open spec fn obeys_try_from_spec() -> bool {
        true
    }

    open spec fn try_from_spec(b: u8) -> Result<PropertyID, ()> {
        match PropertyID::of_byte(b) {
            Some(id) => Ok(id),
            None => Err(()),
        }
    }
}

} // verus!

//! Decoders for the stream formats that a coder of an archive can name.

use vstd::prelude::*;
use vstd::slice::slice_to_vec;
use vstd::std_specs::convert::TryFromSpecImpl;

verus! {

/// What every codec offers.
pub trait Codec {
    /// The bytes that `data` stands for.
    spec fn decoded(&self, data: Seq<u8>) -> Seq<u8>;

    /// Decodes `data`. What a codec cannot tell from the stream itself is
    /// given to its constructor.
    fn decode(&self, data: &[u8]) -> (out: Vec<u8>)
        ensures
            out@ == self.decoded(data@),
    ;
}

/// The trivial codec: its output is its input.
pub struct Copy {}

impl Copy {
    /// The codec needs nothing to be made from.
    pub fn new() -> (codec: Copy)
        ensures
            codec == (Copy {  }),
    {
        Copy {  }
    }
}

impl Codec for Copy {
    open spec fn decoded(&self, data: Seq<u8>) -> Seq<u8> {
        data
    }

    fn decode(&self, data: &[u8]) -> (out: Vec<u8>) {
        slice_to_vec(data)
    }
}

/// The codecs that can be decoded.
#[derive(Debug, Clone, PartialEq, Eq)]
pub enum Codecs {
    /// Identifier `00`: the bytes are stored as they are.
    Copy,
}

#[derive(Debug, Clone, PartialEq, Eq)]
pub enum CodecError {
    /// The archive names a codec, by this identifier, that cannot be decoded.
    UnsupportedCodec(Vec<u8>),
}

/// The model of a `CodecError`.
pub enum CodecErrorView {
    UnsupportedCodec(Seq<u8>),
}

impl View for CodecError {
    type V = CodecErrorView;

    open spec fn view(&self) -> CodecErrorView {
        match self {
            CodecError::UnsupportedCodec(id) => CodecErrorView::UnsupportedCodec(id@),
        }
    }
}

impl TryFrom<Vec<u8>> for Codecs {
    type Error = CodecError;

    /// The codec that the identifier `value` names.
    fn try_from(value: Vec<u8>) -> (r: Result<Codecs, CodecError>) {
        if value.len() == 1 && value[0] == 0 {
            proof {
                assert(value@ =~= seq![0u8]);
            }
            Ok(Codecs::Copy)
        } else {
            Err(CodecError::UnsupportedCodec(value))
        }
    }
}

impl TryFromSpecImpl<Vec<u8>> for Codecs {
    open spec fn obeys_try_from_spec() -> bool {
        true
    }

    open spec fn try_from_spec(value: Vec<u8>) -> Result<Codecs, CodecError> {
        if value@ == seq![0u8] {
            Ok(Codecs::Copy)
        } else {
            Err(CodecError::UnsupportedCodec(value))
        }
    }
}

} // verus!

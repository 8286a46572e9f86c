//! Handing the bytes of a stream to the codec that its coder names.

use crate::codec::{Codec, CodecError, CodecErrorView, Codecs};
use crate::parser::interface::streams::{FileStreamInfo, FileStreamInfoView};
use vstd::prelude::*;
use vstd::slice::slice_to_vec;

verus! {

/// What the packed bytes `data` of `stream` decode to. Only a coder with
/// one input and one output stream and the identifier `00` can be decoded:
/// its bytes are stored as they are.
pub open spec fn spec_decode_file(data: Seq<u8>, stream: FileStreamInfoView) -> Result<
    Seq<u8>,
    CodecErrorView,
> {
    if stream.coder.complex is None && stream.coder.id == seq![0u8] {
        Ok(data)
    } else {
        Err(CodecErrorView::UnsupportedCodec(stream.coder.id))
    }
}

/// Decodes the packed bytes `data` of `stream`.
pub fn decode_file(data: &[u8], stream: &FileStreamInfo) -> (r: Result<Vec<u8>, CodecError>)
    ensures
        match (r, spec_decode_file(data@, stream@)) {
            (Ok(bytes), Ok(sbytes)) => bytes@ == sbytes,
            (Err(e), Err(se)) => e@ == se,
            _ => false,
        },
{
    let id = slice_to_vec(stream.coder.id.as_slice());
    if stream.coder.complex.is_some() {
        return Err(CodecError::UnsupportedCodec(id));
    }
    let codec_kind = Codecs::try_from(id)?;
    match codec_kind {
        Codecs::Copy => {
            let copy_codec = crate::codec::Copy::new();
            Ok(copy_codec.decode(data))
        },
    }
}

} // verus!

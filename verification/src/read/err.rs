//! The errors of reading.

use crate::codec::{CodecError, CodecErrorView};
use crate::parser::err::SevenZParserError;
use vstd::prelude::*;
use vstd::std_specs::convert::FromSpecImpl;

verus! {

#[derive(Debug, Clone, PartialEq, Eq)]
pub enum Error {
    /// The archive could not be decoded.
    Parser(SevenZParserError),
    /// The archive has no file of this name.
    NoSuchFileName(String),
    /// The file's stream could not be decoded.
    CodecFailed(CodecError),
}

/// The model of an `Error`.
pub enum ErrorView {
    Parser(SevenZParserError),
    NoSuchFileName(Seq<char>),
    CodecFailed(CodecErrorView),
}

impl View for Error {
    type V = ErrorView;

    open spec fn view(&self) -> ErrorView {
        match self {
            Error::Parser(e) => ErrorView::Parser(*e),
            Error::NoSuchFileName(name) => ErrorView::NoSuchFileName(name@),
            Error::CodecFailed(e) => ErrorView::CodecFailed(e@),
        }
    }
}

impl From<SevenZParserError> for Error {
    fn from(e: SevenZParserError) -> (r: Error) {
        Error::Parser(e)
    }
}

impl FromSpecImpl<SevenZParserError> for Error {
    open spec fn obeys_from_spec() -> bool {
        true
    }

    open spec fn from_spec(e: SevenZParserError) -> Error {
        Error::Parser(e)
    }
}

impl From<CodecError> for Error {
    fn from(e: CodecError) -> (r: Error) {
        Error::CodecFailed(e)
    }
}

impl FromSpecImpl<CodecError> for Error {
    open spec fn obeys_from_spec() -> bool {
        true
    }

    open spec fn from_spec(e: CodecError) -> Error {
        Error::CodecFailed(e)
    }
}

} // verus!

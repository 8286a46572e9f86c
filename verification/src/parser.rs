//! The container format: signature header, metadata tree and per-file view.

pub mod bits;
pub mod combinators;
pub mod crc;
pub mod err;
pub mod interface;
pub mod parsers;
pub mod types;
pub mod utf16;

pub use crate::parser::err::SevenZParserError;
pub use crate::parser::interface::archive::HighLevelArchive;
pub use crate::parser::interface::file::File;
pub use crate::parser::interface::parse;
pub use crate::parser::interface::streams::{get_file_streams_info, FileStreamInfo};


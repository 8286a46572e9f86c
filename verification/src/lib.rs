//! Reading of 7z archives: the container format is decoded into a metadata
//! tree, the tree is flattened into one record per file, and a file's bytes
//! are handed to the codec its folder names.
//!
//! Every decoder is specified by a function on byte sequences, so a contract
//! says for each input whether it is accepted, what it decodes to, and where
//! decoding stopped.

pub mod codec;
pub mod parser;
pub mod read;

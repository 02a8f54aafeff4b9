//! Errors of archive operations.

use vstd::prelude::*;

verus! {

/// Errors of `projzst` operations.
#[derive(Debug)]
pub enum ProjzstError {
    /// An input/output operation failed (a frame cut short by the end of the file among them).
    Io(std::io::Error),
    /// A JSON text did not parse.
    Json(serde_json::Error),
    /// MessagePack encoding failed.
    MsgPackEncode(rmp_serde::encode::Error),
    /// MessagePack decoding failed.
    MsgPackDecode(rmp_serde::decode::Error),
    /// A metadata frame declares more than `MAX_METADATA_SIZE` bytes.
    InvalidMetadataLength(usize),
    /// The extra metadata file could not be read.
    ExtraFileNotFound(String),
    /// The source to pack does not exist.
    SourceNotFound(String),
    /// The file ends inside a frame magic: it is no valid archive.
    InvalidFileHeader,
}

} // verus!

//! Verified core of `projzst`, the `.pjz` archive format.
//!
//! A `.pjz` file is a run of Zstd skippable frames that carry MessagePack metadata,
//! followed by a standard Zstd frame that holds a tar archive. Each metadata frame is
//! `[4-byte magic 0x184D2A50][4-byte little-endian length][payload]`.
//!
//! This crate holds the byte-level format (writing and scanning frame headers), the
//! metadata model, and the planning and collecting of metadata frames. Reading and
//! writing files, MessagePack and JSON rendering, and the Zstd/tar streams are done by
//! the program around it.

mod outside;

pub mod errors;
pub use crate::errors::ProjzstError;

pub mod frame;
pub use crate::frame::{
    write_frame, ExtraFrame, LastFrame, MainFrame, FRAME_HEADER_LEN, MAX_METADATA_SIZE,
    PROJZST_FRAME_MAGIC, ZSTD_FRAME_MAGIC,
};

pub mod header;
pub use crate::header::{
    encode_header, payload_offset, scan_header_frames, HeaderFault, HeaderFrames,
};

pub mod string_utils;
pub use crate::string_utils::{opt_text, IntoOpStr};

pub mod metadata;
pub use crate::metadata::{BasicMetadata, FullMetadata, Metadata, TextFields};

pub mod builder;
pub use crate::builder::{
    extra_from_parsed, parse_extra_json, HeaderPlan, PackJob, Packer, Unpacker, DEFAULT_ZSTD_LEVEL,
};

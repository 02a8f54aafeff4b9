//! The metadata frames of a `.pjz` archive and their byte encoding.

use vstd::bytes::{spec_u32_to_le_bytes, u32_to_le_bytes};
use vstd::prelude::*;
use vstd::slice::slice_to_vec;
use crate::metadata::{BasicMetadata, Metadata, TextFields};

verus! {

/// Zstd skippable frame magic number used by every projzst metadata frame.
pub const PROJZST_FRAME_MAGIC: u32 = 0x184D2A50;

/// Magic number that opens a standard Zstd compressed frame.
pub const ZSTD_FRAME_MAGIC: u32 = 0xFD2FB528;

/// Largest payload that one metadata frame may declare (10 MiB).
pub const MAX_METADATA_SIZE: usize = 10 * 1024 * 1024;

/// Length of a frame header: the magic and the payload length.
pub const FRAME_HEADER_LEN: usize = 8;

/// The header of a metadata frame whose payload has `len` bytes: the magic, then the
/// length truncated to 32 bits, both little-endian.
pub open spec fn frame_header(len: nat) -> Seq<u8> {
    spec_u32_to_le_bytes(PROJZST_FRAME_MAGIC) + spec_u32_to_le_bytes(len as u32)
}

/// The bytes of the metadata frame that carries `payload`.
pub open spec fn frame_bytes(payload: Seq<u8>) -> Seq<u8> {
    frame_header(payload.len()) + payload
}

/// Appends to `out` the metadata frame that carries `payload` (a MessagePack-encoded
/// frame struct) and returns the number of bytes written.
pub fn write_frame(payload: &[u8], out: &mut Vec<u8>) -> (written: usize)
    requires
        payload@.len() <= usize::MAX - FRAME_HEADER_LEN,
    ensures
        final(out)@ == old(out)@ + frame_bytes(payload@),
        written == payload@.len() + FRAME_HEADER_LEN,
{
    let size: u32 = payload.len() as u32;
    let mut magic_bytes = u32_to_le_bytes(PROJZST_FRAME_MAGIC);
    let mut size_bytes = u32_to_le_bytes(size);
    let mut body = slice_to_vec(payload);
    out.append(&mut magic_bytes);
    out.append(&mut size_bytes);
    out.append(&mut body);
    proof {
        assert(out@ =~= old(out)@ + frame_bytes(payload@)) by {
            assert(frame_bytes(payload@) =~= spec_u32_to_le_bytes(PROJZST_FRAME_MAGIC)
                + spec_u32_to_le_bytes(size) + payload@);
        }
    }
    FRAME_HEADER_LEN + payload.len()
}

/// Frame 0, the main frame: the archive's descriptive fields.
#[derive(Debug, Clone, PartialEq, Eq)]
pub struct MainFrame {
    pub pjz: u32,
    pub name: Option<String>,
    pub auth: Option<String>,
    pub fmt: Option<String>,
    pub ed: Option<String>,
    pub ver: Option<String>,
    pub desc: Option<String>,
    pub total: Option<u32>,
    pub tail: Option<u32>,
}

impl MainFrame {
    /// The descriptive fields carried by this frame.
    pub open spec fn text_fields(&self) -> TextFields {
        (self.name, self.auth, self.fmt, self.ed, self.ver, self.desc)
    }

    /// The descriptive fields of this frame, as basic metadata.
    pub fn basic(self) -> (r: BasicMetadata)
        ensures
            r.text_fields() == self.text_fields(),
    {
        BasicMetadata::default().name(self.name).auth(self.auth).desc(self.desc).ed(self.ed).fmt(
            self.fmt,
        ).ver(self.ver)
    }

    /// A main frame of format version `pjz` with every optional field absent.
    pub fn new(pjz: u32) -> (r: Self)
        ensures
            r.pjz == pjz,
            r.name is None,
            r.auth is None,
            r.fmt is None,
            r.ed is None,
            r.ver is None,
            r.desc is None,
            r.total is None,
            r.tail is None,
    {
        MainFrame {
            pjz,
            name: None,
            auth: None,
            fmt: None,
            ed: None,
            ver: None,
            desc: None,
            total: None,
            tail: None,
        }
    }
}

impl Metadata for MainFrame {
    fn name(self, name: Option<String>) -> (r: Self)
        ensures
            r.text_fields() == (name, self.auth, self.fmt, self.ed, self.ver, self.desc),
            r.pjz == self.pjz,
            r.total == self.total,
            r.tail == self.tail,
    {
        let mut m = self;
        m.name = name;
        m
    }

    fn auth(self, auth: Option<String>) -> (r: Self)
        ensures
            r.text_fields() == (self.name, auth, self.fmt, self.ed, self.ver, self.desc),
            r.pjz == self.pjz,
            r.total == self.total,
            r.tail == self.tail,
    {
        let mut m = self;
        m.auth = auth;
        m
    }

    fn fmt(self, fmt: Option<String>) -> (r: Self)
        ensures
            r.text_fields() == (self.name, self.auth, fmt, self.ed, self.ver, self.desc),
            r.pjz == self.pjz,
            r.total == self.total,
            r.tail == self.tail,
    {
        let mut m = self;
        m.fmt = fmt;
        m
    }

    fn ed(self, ed: Option<String>) -> (r: Self)
        ensures
            r.text_fields() == (self.name, self.auth, self.fmt, ed, self.ver, self.desc),
            r.pjz == self.pjz,
            r.total == self.total,
            r.tail == self.tail,
    {
        let mut m = self;
        m.ed = ed;
        m
    }

    fn ver(self, ver: Option<String>) -> (r: Self)
        ensures
            r.text_fields() == (self.name, self.auth, self.fmt, self.ed, ver, self.desc),
            r.pjz == self.pjz,
            r.total == self.total,
            r.tail == self.tail,
    {
        let mut m = self;
        m.ver = ver;
        m
    }

    fn desc(self, desc: Option<String>) -> (r: Self)
        ensures
            r.text_fields() == (self.name, self.auth, self.fmt, self.ed, self.ver, desc),
            r.pjz == self.pjz,
            r.total == self.total,
            r.tail == self.tail,
    {
        let mut m = self;
        m.desc = desc;
        m
    }
}

/// An extra frame: one JSON object inserted into the header, numbered by its position.
#[derive(Debug, Clone, PartialEq)]
pub struct ExtraFrame {
    pub frame: u32,
    pub extra: Option<serde_json::Value>,
}

impl ExtraFrame {
    /// The extra frame number `frame` that carries `extra`.
    pub fn new(frame: u32, extra: serde_json::Value) -> (r: Self)
        ensures
            r.frame == frame,
            r.extra == Some(extra),
    {
        ExtraFrame { frame, extra: Some(extra) }
    }
}

/// The last frame, which stands after the Zstd payload.
#[derive(Debug, Clone, PartialEq, Eq)]
pub struct LastFrame {
    pub frame: u32,
}

impl LastFrame {
    /// The last frame, numbered `frame`.
    pub fn new(frame: u32) -> (r: Self)
        ensures
            r.frame == frame,
    {
        LastFrame { frame }
    }
}

} // verus!

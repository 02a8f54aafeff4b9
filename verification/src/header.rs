//! Reading the metadata header of an archive: the run of frames before the Zstd payload.

use crate::errors::ProjzstError;
use crate::frame::{
    frame_bytes, write_frame, FRAME_HEADER_LEN, MAX_METADATA_SIZE, PROJZST_FRAME_MAGIC,
    ZSTD_FRAME_MAGIC,
};
use crate::outside::unexpected_eof_error;
use vstd::bytes::{
    lemma_auto_spec_u32_to_from_le_bytes, spec_u32_from_le_bytes, spec_u32_to_le_bytes,
    u32_from_le_bytes,
};
use vstd::prelude::*;
use vstd::slice::{slice_subrange, slice_to_vec};

verus! {

/// Why the header of an archive cannot be read.
pub enum HeaderFault {
    /// A frame's length field or payload runs past the end of the input.
    Truncated,
    /// A metadata frame declares this many bytes, more than `MAX_METADATA_SIZE`.
    Oversized(u32),
    /// The input ends inside a magic number.
    PartialMagic,
}

/// The little-endian 32-bit number at `pos` of `s`.
pub open spec fn le32_at(s: Seq<u8>, pos: int) -> u32 {
    spec_u32_from_le_bytes(s.subrange(pos, pos + 4))
}

/// Scans `s` from `pos`, with the payloads `found` so far, and gives the payloads of all
/// metadata frames in order.
///
/// At each position: the end of the input ends the header; a magic cut short is a fault;
/// the Zstd frame magic ends the header; a metadata frame is taken (its length must not
/// exceed `MAX_METADATA_SIZE` and its payload must be there); any other frame is skipped
/// by its length field, and skipping to or past the end ends the header.
pub open spec fn scan_frames(s: Seq<u8>, pos: int, found: Seq<Seq<u8>>) -> Result<
    Seq<Seq<u8>>,
    HeaderFault,
>
    decreases s.len() - pos,
{
    if pos >= s.len() {
        Ok(found)
    } else if pos + 4 > s.len() {
        Err(HeaderFault::PartialMagic)
    } else if le32_at(s, pos) == ZSTD_FRAME_MAGIC {
        Ok(found)
    } else if pos + 8 > s.len() {
        Err(HeaderFault::Truncated)
    } else {
        let size: u32 = le32_at(s, pos + 4);
        let next: int = pos + 8 + size as int;
        if le32_at(s, pos) == PROJZST_FRAME_MAGIC {
            if size > MAX_METADATA_SIZE {
                Err(HeaderFault::Oversized(size))
            } else if next > s.len() {
                Err(HeaderFault::Truncated)
            } else {
                scan_frames(s, next, found.push(s.subrange(pos + 8, next)))
            }
        } else if next >= s.len() {
            Ok(found)
        } else {
            scan_frames(s, next, found)
        }
    }
}

/// The payloads of the metadata frames of an archive, or why they cannot be read.
pub open spec fn header_payloads(s: Seq<u8>) -> Result<Seq<Seq<u8>>, HeaderFault> {
    scan_frames(s, 0, Seq::empty())
}

/// Where the Zstd payload starts when reading from `pos`: metadata frames are skipped by
/// their length field; any other magic is where the payload starts; an input that ends
/// inside a magic leaves the payload empty (at the end); `None` where a metadata frame's
/// length field is cut short.
pub open spec fn payload_start(s: Seq<u8>, pos: int) -> Option<int>
    decreases s.len() - pos,
{
    if pos + 4 > s.len() {
        Some(s.len() as int)
    } else if le32_at(s, pos) != PROJZST_FRAME_MAGIC {
        Some(pos)
    } else if pos + 8 > s.len() {
        None
    } else {
        let next: int = pos + 8 + le32_at(s, pos + 4) as int;
        if next >= s.len() {
            Some(s.len() as int)
        } else {
            payload_start(s, next)
        }
    }
}

/// The byte contents of a sequence of byte vectors.
pub open spec fn bytes_views(v: Seq<Vec<u8>>) -> Seq<Seq<u8>> {
    v.map_values(|b: Vec<u8>| b@)
}

/// The metadata frames found in a header: frame 0 is the main frame, the others are
/// extra frames.
pub struct HeaderFrames {
    /// The payload of frame 0, if the header holds any metadata frame.
    pub main: Option<Vec<u8>>,
    /// The payloads of frames 1, 2, ... in order.
    pub extras: Vec<Vec<u8>>,
}

impl HeaderFrames {
    /// The payloads of all frames, in order.
    pub open spec fn payloads(&self) -> Seq<Seq<u8>> {
        match self.main {
            Some(m) => seq![m@] + bytes_views(self.extras@),
            None => Seq::empty(),
        }
    }

    /// Extra frames come only after a main frame.
    pub open spec fn wf(&self) -> bool {
        self.main is None ==> self.extras@.len() == 0
    }
}

/// The error that `scan_header_frames` reports for a fault.
pub open spec fn fault_error_matches(fault: HeaderFault, e: ProjzstError) -> bool {
    match fault {
        HeaderFault::Truncated => e is Io,
        HeaderFault::Oversized(n) => e == ProjzstError::InvalidMetadataLength(n as usize),
        HeaderFault::PartialMagic => e is InvalidFileHeader,
    }
}

/// Reads the metadata frames at the start of an archive's bytes, up to the Zstd payload.
pub fn scan_header_frames(bytes: &[u8]) -> (res: Result<HeaderFrames, ProjzstError>)
    ensures
        match header_payloads(bytes@) {
            Ok(ps) => res matches Ok(h) && h.wf() && h.payloads() == ps,
            Err(fault) => res matches Err(e) && fault_error_matches(fault, e),
        },
{
    let len: usize = bytes.len();
    let mut pos: usize = 0;
    let mut found: Vec<Vec<u8>> = Vec::new();
    assert(bytes_views(found@) =~= Seq::<Seq<u8>>::empty());
    loop
        invariant
            len == bytes@.len(),
            pos <= len,
            header_payloads(bytes@) == scan_frames(bytes@, pos as int, bytes_views(found@)),
        ensures
            header_payloads(bytes@) == Ok::<Seq<Seq<u8>>, HeaderFault>(bytes_views(found@)),
        decreases len - pos,
    {
        if pos == len {
            break;
        }
        if len - pos < 4 {
            return Err(ProjzstError::InvalidFileHeader);
        }
        let magic: u32 = u32_from_le_bytes(slice_subrange(bytes, pos, pos + 4));
        if magic == ZSTD_FRAME_MAGIC {
            break;
        }
        if len - pos < 8 {
            return Err(ProjzstError::Io(unexpected_eof_error()));
        }
        let size: u32 = u32_from_le_bytes(slice_subrange(bytes, pos + 4, pos + 8));
        let start: usize = pos + 8;
        if magic == PROJZST_FRAME_MAGIC {
            if size as usize > MAX_METADATA_SIZE {
                return Err(ProjzstError::InvalidMetadataLength(size as usize));
            }
            if size as usize > len - start {
                return Err(ProjzstError::Io(unexpected_eof_error()));
            }
            let end: usize = start + size as usize;
            let payload = slice_to_vec(slice_subrange(bytes, start, end));
            let ghost before = bytes_views(found@);
            found.push(payload);
            proof {
                assert(bytes_views(found@) =~= before.push(bytes@.subrange(start as int, end as int)));
            }
            pos = end;
        } else {
            if size as usize >= len - start {
                break;
            }
            pos = start + size as usize;
        }
    }
    let ghost all = bytes_views(found@);
    assert(all.len() == found@.len());
    if found.len() == 0 {
        Ok(HeaderFrames { main: None, extras: found })
    } else {
        let main = found.remove(0);
        proof {
            assert(seq![main@] + bytes_views(found@) =~= all);
        }
        Ok(HeaderFrames { main: Some(main), extras: found })
    }
}

/// The offset in an archive's bytes where the Zstd payload starts, found by skipping the
/// metadata frames at its start by their length fields.
pub fn payload_offset(bytes: &[u8]) -> (res: Result<usize, ProjzstError>)
    ensures
        match payload_start(bytes@, 0) {
            Some(p) => res matches Ok(q) && q == p,
            None => res matches Err(e) && e is Io,
        },
{
    let len: usize = bytes.len();
    let mut pos: usize = 0;
    loop
        invariant
            len == bytes@.len(),
            pos <= len,
            payload_start(bytes@, 0) == payload_start(bytes@, pos as int),
        decreases len - pos,
    {
        if len - pos < 4 {
            return Ok(len);
        }
        let magic: u32 = u32_from_le_bytes(slice_subrange(bytes, pos, pos + 4));
        if magic != PROJZST_FRAME_MAGIC {
            return Ok(pos);
        }
        if len - pos < 8 {
            return Err(ProjzstError::Io(unexpected_eof_error()));
        }
        let size: u32 = u32_from_le_bytes(slice_subrange(bytes, pos + 4, pos + 8));
        let start: usize = pos + 8;
        if size as usize >= len - start {
            return Ok(len);
        }
        pos = start + size as usize;
    }
}

/// The bytes of a header that carries `payloads` as metadata frames, in order.
pub open spec fn header_bytes(payloads: Seq<Seq<u8>>) -> Seq<u8>
    decreases payloads.len(),
{
    if payloads.len() == 0 {
        Seq::empty()
    } else {
        header_bytes(payloads.drop_last()) + frame_bytes(payloads.last())
    }
}

/// Every payload fits in a metadata frame.
pub open spec fn payloads_fit(payloads: Seq<Seq<u8>>) -> bool {
    forall|i: int| 0 <= i < payloads.len() ==> #[trigger] payloads[i].len() <= MAX_METADATA_SIZE
}

/// What may follow the header: nothing, or a Zstd frame, which opens with its magic.
pub open spec fn starts_zstd_payload(rest: Seq<u8>) -> bool {
    rest.len() == 0 || (rest.len() >= 4 && le32_at(rest, 0) == ZSTD_FRAME_MAGIC)
}

/// Encodes `payloads` as consecutive metadata frames: the header of an archive.
pub fn encode_header(payloads: &Vec<Vec<u8>>) -> (out: Vec<u8>)
    requires
        forall|i: int| 0 <= i < payloads@.len() ==> #[trigger] payloads@[i]@.len() <= usize::MAX
            - FRAME_HEADER_LEN,
    ensures
        out@ == header_bytes(bytes_views(payloads@)),
{
    let mut out: Vec<u8> = Vec::new();
    let n: usize = payloads.len();
    let ghost views = bytes_views(payloads@);
    assert(views.take(0) =~= Seq::<Seq<u8>>::empty());
    for i in 0..n
        invariant
            n == payloads@.len(),
            views == bytes_views(payloads@),
            forall|j: int| 0 <= j < payloads@.len() ==> #[trigger] payloads@[j]@.len() <= usize::MAX
                - FRAME_HEADER_LEN,
            out@ == header_bytes(views.take(i as int)),
    {
        write_frame(payloads[i].as_slice(), &mut out);
        assert(views.take(i + 1).drop_last() =~= views.take(i as int));
    }
    assert(views.take(n as int) =~= views);
    out
}

/// The header of `payloads` is the first frame followed by the header of the others.
pub proof fn lemma_header_bytes_first(payloads: Seq<Seq<u8>>)
    requires
        payloads.len() > 0,
    ensures
        header_bytes(payloads) == frame_bytes(payloads[0]) + header_bytes(payloads.drop_first()),
    decreases payloads.len(),
{
    if payloads.len() == 1 {
        assert(payloads.drop_last() =~= Seq::<Seq<u8>>::empty());
        assert(payloads.drop_first() =~= Seq::<Seq<u8>>::empty());
        assert(header_bytes(payloads) =~= frame_bytes(payloads[0]) + header_bytes(
            payloads.drop_first(),
        ));
    } else {
        let init = payloads.drop_last();
        lemma_header_bytes_first(init);
        assert(init.drop_first() =~= payloads.drop_first().drop_last());
        assert(payloads.drop_first().last() == payloads.last());
        assert(header_bytes(payloads) =~= frame_bytes(payloads[0]) + header_bytes(
            payloads.drop_first(),
        ));
    }
}

/// A header is at least as long as its frame headers.
proof fn lemma_header_bytes_len(payloads: Seq<Seq<u8>>)
    ensures
        header_bytes(payloads).len() >= 8 * payloads.len(),
    decreases payloads.len(),
{
    reveal_with_fuel(header_bytes, 1);
    lemma_auto_spec_u32_to_from_le_bytes();
    if payloads.len() > 0 {
        lemma_header_bytes_len(payloads.drop_last());
    }
}

/// The magic and the length field of a frame header read back as written.
proof fn lemma_frame_header_fields(pre: Seq<u8>, payload: Seq<u8>, post: Seq<u8>)
    requires
        payload.len() <= MAX_METADATA_SIZE,
    ensures
        ({
            let s = pre + frame_bytes(payload) + post;
            let pos: int = pre.len() as int;
            &&& s.len() == pre.len() + 8 + payload.len() + post.len()
            &&& le32_at(s, pos) == PROJZST_FRAME_MAGIC
            &&& le32_at(s, pos + 4) == payload.len()
            &&& s.subrange(pos + 8, pos + 8 + payload.len()) == payload
        }),
{
    lemma_auto_spec_u32_to_from_le_bytes();
    let s = pre + frame_bytes(payload) + post;
    let pos: int = pre.len() as int;
    let m = spec_u32_to_le_bytes(PROJZST_FRAME_MAGIC);
    let l = spec_u32_to_le_bytes(payload.len() as u32);
    assert(s.subrange(pos, pos + 4) =~= m);
    assert(s.subrange(pos + 4, pos + 8) =~= l);
    assert(s.subrange(pos + 8, pos + 8 + payload.len()) =~= payload);
}

proof fn lemma_scan_header(pre: Seq<u8>, payloads: Seq<Seq<u8>>, rest: Seq<u8>, found: Seq<Seq<u8>>)
    requires
        payloads_fit(payloads),
        starts_zstd_payload(rest),
    ensures
        scan_frames(pre + header_bytes(payloads) + rest, pre.len() as int, found) == Ok::<
            Seq<Seq<u8>>,
            HeaderFault,
        >(found + payloads),
        payload_start(pre + header_bytes(payloads) + rest, pre.len() as int) == Some(
            pre.len() + header_bytes(payloads).len() as int,
        ),
    decreases payloads.len(),
{
    let s = pre + header_bytes(payloads) + rest;
    let pos: int = pre.len() as int;
    if payloads.len() == 0 {
        assert(s =~= pre + rest);
        assert(found + payloads =~= found);
        if rest.len() > 0 {
            assert(s.subrange(pos, pos + 4) =~= rest.subrange(0, 4));
        }
    } else {
        lemma_header_bytes_first(payloads);
        let p0 = payloads[0];
        let others = payloads.drop_first();
        assert(p0.len() <= MAX_METADATA_SIZE);
        assert(payloads_fit(others)) by {
            assert forall|i: int| 0 <= i < others.len() implies #[trigger] others[i].len()
                <= MAX_METADATA_SIZE by {
                assert(others[i] == payloads[i + 1]);
            }
        }
        lemma_frame_header_fields(pre, p0, header_bytes(others) + rest);
        assert(s =~= pre + frame_bytes(p0) + (header_bytes(others) + rest));
        let pre2 = pre + frame_bytes(p0);
        assert(s =~= pre2 + header_bytes(others) + rest);
        lemma_scan_header(pre2, others, rest, found.push(p0));
        assert(found.push(p0) + others =~= found + payloads);
        lemma_header_bytes_len(others);
    }
}

/// Reading back a header gives the payloads written into it, in order, and the Zstd
/// payload starts right after it, provided no payload exceeds `MAX_METADATA_SIZE` and
/// what follows the header is empty or opens with the Zstd frame magic.
pub proof fn lemma_header_roundtrip(payloads: Seq<Seq<u8>>, rest: Seq<u8>)
    requires
        payloads_fit(payloads),
        starts_zstd_payload(rest),
    ensures
        header_payloads(header_bytes(payloads) + rest) == Ok::<Seq<Seq<u8>>, HeaderFault>(
            payloads,
        ),
        payload_start(header_bytes(payloads) + rest, 0) == Some(header_bytes(payloads).len() as int),
{
    let e = Seq::<u8>::empty();
    lemma_scan_header(e, payloads, rest, Seq::empty());
    assert(e + header_bytes(payloads) + rest =~= header_bytes(payloads) + rest);
    assert(Seq::<Seq<u8>>::empty() + payloads =~= payloads);
}

/// Scanning bytes behind a prefix, from a position past the prefix, reads them as if the
/// prefix were not there.
proof fn lemma_scan_behind_prefix(pre: Seq<u8>, s: Seq<u8>, pos: int, found: Seq<Seq<u8>>)
    requires
        0 <= pos,
    ensures
        scan_frames(pre + s, pre.len() + pos, found) == scan_frames(s, pos, found),
    decreases s.len() - pos,
{
    let t = pre + s;
    let q: int = pre.len() + pos;
    if pos < s.len() && pos + 4 <= s.len() {
        assert(t.subrange(q, q + 4) =~= s.subrange(pos, pos + 4));
        if pos + 8 <= s.len() {
            assert(t.subrange(q + 4, q + 8) =~= s.subrange(pos + 4, pos + 8));
            let next: int = pos + 8 + le32_at(s, pos + 4) as int;
            if next <= s.len() {
                assert(t.subrange(q + 8, pre.len() + next) =~= s.subrange(pos + 8, next));
                lemma_scan_behind_prefix(pre, s, next, found.push(s.subrange(pos + 8, next)));
            }
            if next < s.len() {
                lemma_scan_behind_prefix(pre, s, next, found);
            }
        }
    }
}

/// The bytes of a frame of another kind than a metadata or a Zstd frame: its magic, its
/// 32-bit little-endian length, then its body.
pub open spec fn foreign_frame_bytes(magic: u32, body: Seq<u8>) -> Seq<u8> {
    spec_u32_to_le_bytes(magic) + spec_u32_to_le_bytes(body.len() as u32) + body
}

/// A frame of an unknown kind is skipped: the metadata read from an input is the same
/// with such a frame in front of it.
pub proof fn lemma_unknown_frame_skipped(magic: u32, body: Seq<u8>, s: Seq<u8>)
    requires
        magic != PROJZST_FRAME_MAGIC,
        magic != ZSTD_FRAME_MAGIC,
        body.len() <= u32::MAX,
    ensures
        header_payloads(foreign_frame_bytes(magic, body) + s) == header_payloads(s),
{
    lemma_auto_spec_u32_to_from_le_bytes();
    let f = foreign_frame_bytes(magic, body);
    let t = f + s;
    assert(t.subrange(0, 4) =~= spec_u32_to_le_bytes(magic));
    assert(t.subrange(4, 8) =~= spec_u32_to_le_bytes(body.len() as u32));
    assert(le32_at(t, 4) == body.len());
    lemma_scan_behind_prefix(f, s, 0, Seq::empty());
}

/// A metadata frame is the magic 0x184D2A50, the payload length (both 32-bit
/// little-endian), then the payload itself.
pub proof fn lemma_frame_layout(payload: Seq<u8>)
    requires
        payload.len() <= u32::MAX,
    ensures
        frame_bytes(payload).len() == payload.len() + 8,
        spec_u32_from_le_bytes(frame_bytes(payload).subrange(0, 4)) == 0x184D2A50u32,
        spec_u32_from_le_bytes(frame_bytes(payload).subrange(4, 8)) == payload.len(),
        frame_bytes(payload).subrange(8, payload.len() + 8int) == payload,
{
    lemma_auto_spec_u32_to_from_le_bytes();
    let f = frame_bytes(payload);
    assert(f.subrange(0, 4) =~= spec_u32_to_le_bytes(PROJZST_FRAME_MAGIC));
    assert(f.subrange(4, 8) =~= spec_u32_to_le_bytes(payload.len() as u32));
    assert(f.subrange(8, payload.len() + 8int) =~= payload);
}

/// A header of no payload is empty; the header of payloads followed by one more payload
/// is their header followed by that payload's frame; and the header of two runs of
/// payloads is the header of the first run followed by that of the second.
pub proof fn lemma_header_bytes_append(first: Seq<Seq<u8>>, second: Seq<Seq<u8>>, payload: Seq<u8>)
    ensures
        header_bytes(Seq::empty()) == Seq::<u8>::empty(),
        header_bytes(first.push(payload)) == header_bytes(first) + frame_bytes(payload),
        header_bytes(first + second) == header_bytes(first) + header_bytes(second),
    decreases second.len(),
{
    assert(first.push(payload).drop_last() =~= first);
    if second.len() == 0 {
        assert(first + second =~= first);
        assert(header_bytes(first) + header_bytes(second) =~= header_bytes(first));
    } else {
        lemma_header_bytes_append(first, second.drop_last(), payload);
        assert((first + second).drop_last() =~= first + second.drop_last());
        assert((first + second).last() == second.last());
        assert(header_bytes(first + second) =~= header_bytes(first) + header_bytes(second));
    }
}

/// Scanning through the frames of a header moves past them and collects their payloads.
proof fn lemma_scan_walk(pre: Seq<u8>, payloads: Seq<Seq<u8>>, rest: Seq<u8>, found: Seq<Seq<u8>>)
    requires
        payloads_fit(payloads),
    ensures
        scan_frames(pre + header_bytes(payloads) + rest, pre.len() as int, found) == scan_frames(
            pre + header_bytes(payloads) + rest,
            pre.len() + header_bytes(payloads).len() as int,
            found + payloads,
        ),
    decreases payloads.len(),
{
    let s = pre + header_bytes(payloads) + rest;
    if payloads.len() == 0 {
        assert(found + payloads =~= found);
    } else {
        lemma_header_bytes_first(payloads);
        let p0 = payloads[0];
        let others = payloads.drop_first();
        assert(p0.len() <= MAX_METADATA_SIZE);
        assert(payloads_fit(others)) by {
            assert forall|i: int| 0 <= i < others.len() implies #[trigger] others[i].len()
                <= MAX_METADATA_SIZE by {
                assert(others[i] == payloads[i + 1]);
            }
        }
        lemma_frame_header_fields(pre, p0, header_bytes(others) + rest);
        assert(s =~= pre + frame_bytes(p0) + (header_bytes(others) + rest));
        let pre2 = pre + frame_bytes(p0);
        assert(s =~= pre2 + header_bytes(others) + rest);
        lemma_scan_walk(pre2, others, rest, found.push(p0));
        assert(found.push(p0) + others =~= found + payloads);
    }
}

/// Scanning at a frame of an unknown kind goes on at the end of that frame.
proof fn lemma_scan_skips_foreign(
    pre: Seq<u8>,
    magic: u32,
    body: Seq<u8>,
    post: Seq<u8>,
    found: Seq<Seq<u8>>,
)
    requires
        magic != PROJZST_FRAME_MAGIC,
        magic != ZSTD_FRAME_MAGIC,
        body.len() <= u32::MAX,
    ensures
        ({
            let f = spec_u32_to_le_bytes(magic) + spec_u32_to_le_bytes(body.len() as u32) + body;
            scan_frames(pre + f + post, pre.len() as int, found) == scan_frames(
                pre + f + post,
                pre.len() + f.len() as int,
                found,
            )
        }),
{
    lemma_auto_spec_u32_to_from_le_bytes();
    let f = spec_u32_to_le_bytes(magic) + spec_u32_to_le_bytes(body.len() as u32) + body;
    let s = pre + f + post;
    let pos: int = pre.len() as int;
    assert(s.subrange(pos, pos + 4) =~= spec_u32_to_le_bytes(magic));
    assert(s.subrange(pos + 4, pos + 8) =~= spec_u32_to_le_bytes(body.len() as u32));
}

/// A frame of an unknown kind anywhere in a header is skipped by its length, and the
/// scan goes on behind it: the metadata frames before and after it are all read, exactly
/// as if it were not there.
pub proof fn lemma_unknown_frame_inside_header_skipped(
    before: Seq<Seq<u8>>,
    magic: u32,
    body: Seq<u8>,
    after: Seq<Seq<u8>>,
    rest: Seq<u8>,
)
    requires
        payloads_fit(before),
        payloads_fit(after),
        magic != 0x184D2A50u32,
        magic != 0xFD2FB528u32,
        body.len() <= u32::MAX,
        starts_zstd_payload(rest),
    ensures
        ({
            let f = spec_u32_to_le_bytes(magic) + spec_u32_to_le_bytes(body.len() as u32) + body;
            &&& header_payloads(header_bytes(before) + f + header_bytes(after) + rest) == Ok::<
                Seq<Seq<u8>>,
                HeaderFault,
            >(before + after)
            &&& header_payloads(header_bytes(before) + f + header_bytes(after) + rest)
                == header_payloads(header_bytes(before) + header_bytes(after) + rest)
        }),
{
    let f = spec_u32_to_le_bytes(magic) + spec_u32_to_le_bytes(body.len() as u32) + body;
    let h1 = header_bytes(before);
    let h2 = header_bytes(after);
    let e = Seq::<u8>::empty();
    let none = Seq::<Seq<u8>>::empty();
    // With the unknown frame.
    let s = h1 + f + h2 + rest;
    assert(s =~= e + h1 + (f + h2 + rest));
    lemma_scan_walk(e, before, f + h2 + rest, none);
    assert(none + before =~= before);
    assert(s =~= h1 + f + (h2 + rest));
    lemma_scan_skips_foreign(h1, magic, body, h2 + rest, before);
    assert(s =~= (h1 + f) + h2 + rest);
    lemma_scan_header(h1 + f, after, rest, before);
    // Without it.
    let t = h1 + h2 + rest;
    assert(t =~= e + h1 + (h2 + rest));
    lemma_scan_walk(e, before, h2 + rest, none);
    lemma_scan_header(h1, after, rest, before);
}

/// Looking for the payload start moves past the frames of a header.
proof fn lemma_start_walk(pre: Seq<u8>, payloads: Seq<Seq<u8>>, rest: Seq<u8>)
    requires
        payloads_fit(payloads),
    ensures
        payload_start(pre + header_bytes(payloads) + rest, pre.len() as int) == payload_start(
            pre + header_bytes(payloads) + rest,
            pre.len() + header_bytes(payloads).len() as int,
        ),
    decreases payloads.len(),
{
    let s = pre + header_bytes(payloads) + rest;
    if payloads.len() > 0 {
        lemma_header_bytes_first(payloads);
        let p0 = payloads[0];
        let others = payloads.drop_first();
        assert(p0.len() <= MAX_METADATA_SIZE);
        assert(payloads_fit(others)) by {
            assert forall|i: int| 0 <= i < others.len() implies #[trigger] others[i].len()
                <= MAX_METADATA_SIZE by {
                assert(others[i] == payloads[i + 1]);
            }
        }
        lemma_frame_header_fields(pre, p0, header_bytes(others) + rest);
        assert(s =~= pre + frame_bytes(p0) + (header_bytes(others) + rest));
        let pre2 = pre + frame_bytes(p0);
        assert(s =~= pre2 + header_bytes(others) + rest);
        lemma_start_walk(pre2, others, rest);
    }
}

/// The Zstd payload starts at the first frame behind the metadata frames of a header,
/// whatever kind that frame is; behind a header that ends within a magic number, it is
/// empty (it starts at the end).
pub proof fn lemma_payload_starts_after_header(payloads: Seq<Seq<u8>>, rest: Seq<u8>)
    requires
        payloads_fit(payloads),
        rest.len() >= 4 ==> spec_u32_from_le_bytes(rest.subrange(0, 4)) != 0x184D2A50u32,
    ensures
        payload_start(header_bytes(payloads) + rest, 0) == Some(
            if rest.len() >= 4 {
                header_bytes(payloads).len() as int
            } else {
                header_bytes(payloads).len() + rest.len() as int
            },
        ),
{
    let e = Seq::<u8>::empty();
    let h = header_bytes(payloads);
    let s = h + rest;
    assert(s =~= e + h + rest);
    lemma_start_walk(e, payloads, rest);
    if rest.len() >= 4 {
        assert(s.subrange(h.len() as int, h.len() + 4int) =~= rest.subrange(0, 4));
    }
}

/// Behind the metadata frames of a header: a metadata frame that declares more than
/// `MAX_METADATA_SIZE` bytes is refused with that length; one whose payload is not all
/// there, or whose length field is cut short, is a truncated input; and an input that
/// ends within a magic number is no archive.
pub proof fn lemma_header_faults(payloads: Seq<Seq<u8>>, size: u32, tail: Seq<u8>)
    requires
        payloads_fit(payloads),
    ensures
        ({
            let h = header_bytes(payloads);
            let f = spec_u32_to_le_bytes(0x184D2A50u32) + spec_u32_to_le_bytes(size) + tail;
            &&& size > MAX_METADATA_SIZE ==> header_payloads(h + f) == Err::<
                Seq<Seq<u8>>,
                HeaderFault,
            >(HeaderFault::Oversized(size))
            &&& (size <= MAX_METADATA_SIZE && tail.len() < size) ==> header_payloads(h + f)
                == Err::<Seq<Seq<u8>>, HeaderFault>(HeaderFault::Truncated)
            &&& (0 < tail.len() < 4) ==> header_payloads(h + tail) == Err::<
                Seq<Seq<u8>>,
                HeaderFault,
            >(HeaderFault::PartialMagic)
            &&& (4 <= tail.len() < 8 && spec_u32_from_le_bytes(tail.subrange(0, 4))
                != 0xFD2FB528u32) ==> header_payloads(h + tail) == Err::<
                Seq<Seq<u8>>,
                HeaderFault,
            >(HeaderFault::Truncated)
        }),
{
    lemma_auto_spec_u32_to_from_le_bytes();
    let e = Seq::<u8>::empty();
    let none = Seq::<Seq<u8>>::empty();
    let h = header_bytes(payloads);
    let f = spec_u32_to_le_bytes(0x184D2A50u32) + spec_u32_to_le_bytes(size) + tail;
    let q: int = h.len() as int;
    assert(none + payloads =~= payloads);
    let s = h + f;
    assert(s =~= e + h + f);
    lemma_scan_walk(e, payloads, f, none);
    assert(s.subrange(q, q + 4) =~= spec_u32_to_le_bytes(0x184D2A50u32));
    assert(s.subrange(q + 4, q + 8) =~= spec_u32_to_le_bytes(size));
    let t = h + tail;
    assert(t =~= e + h + tail);
    lemma_scan_walk(e, payloads, tail, none);
    if tail.len() >= 4 {
        assert(t.subrange(q, q + 4) =~= tail.subrange(0, 4));
    }
}

/// The error that reading a header reports for each fault: an input/output error for a
/// truncated input, the declared length for an oversized frame, and an invalid header
/// for an input that ends within a magic number.
pub proof fn lemma_fault_errors(n: u32, e: ProjzstError)
    ensures
        fault_error_matches(HeaderFault::Truncated, e) <==> e is Io,
        fault_error_matches(HeaderFault::Oversized(n), e) <==> e
            == ProjzstError::InvalidMetadataLength(n as usize),
        fault_error_matches(HeaderFault::PartialMagic, e) <==> e is InvalidFileHeader,
{
}

} // verus!

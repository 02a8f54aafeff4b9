use projzst::{
    encode_header, payload_offset, scan_header_frames, write_frame, ProjzstError,
    FRAME_HEADER_LEN, MAX_METADATA_SIZE, PROJZST_FRAME_MAGIC, ZSTD_FRAME_MAGIC,
};

fn frame(magic: u32, size: u32, payload: &[u8]) -> Vec<u8> {
    let mut v = Vec::new();
    v.extend_from_slice(&magic.to_le_bytes());
    v.extend_from_slice(&size.to_le_bytes());
    v.extend_from_slice(payload);
    v
}

#[test]
fn write_frame_lays_out_magic_length_payload() {
    let mut out = vec![9u8];
    let n: usize = write_frame(&[1, 2, 3], &mut out);
    assert_eq!(n, 11);
    assert_eq!(out, vec![9, 0x50, 0x2A, 0x4D, 0x18, 3, 0, 0, 0, 1, 2, 3]);
}

#[test]
fn write_frame_of_empty_payload_is_header_only() {
    let mut out = Vec::new();
    assert_eq!(write_frame(&[], &mut out), FRAME_HEADER_LEN);
    assert_eq!(out, vec![0x50, 0x2A, 0x4D, 0x18, 0, 0, 0, 0]);
}

#[test]
fn encode_header_concatenates_frames_in_order() {
    let payloads = vec![vec![0xAAu8], vec![], vec![1u8, 2]];
    let out = encode_header(&payloads);
    let mut expected = frame(PROJZST_FRAME_MAGIC, 1, &[0xAA]);
    expected.extend(frame(PROJZST_FRAME_MAGIC, 0, &[]));
    expected.extend(frame(PROJZST_FRAME_MAGIC, 2, &[1, 2]));
    assert_eq!(out, expected);
}

#[test]
fn header_roundtrip_with_real_zstd_payload() {
    let data = b"tar bytes stand here".to_vec();
    let compressed = zstd::encode_all(&data[..], 3).unwrap();
    assert_eq!(&compressed[..4], &ZSTD_FRAME_MAGIC.to_le_bytes());
    let payloads = vec![b"main".to_vec(), b"first extra".to_vec(), b"second".to_vec()];
    let header = encode_header(&payloads);
    let mut archive = header.clone();
    archive.extend_from_slice(&compressed);

    let frames = scan_header_frames(&archive).unwrap();
    assert_eq!(frames.main, Some(b"main".to_vec()));
    assert_eq!(frames.extras, vec![b"first extra".to_vec(), b"second".to_vec()]);

    let offset: usize = payload_offset(&archive).unwrap();
    assert_eq!(offset, header.len());
    assert_eq!(zstd::decode_all(&archive[offset..]).unwrap(), data);
}

#[test]
fn scan_of_empty_input_finds_no_frame() {
    let frames = scan_header_frames(&[]).unwrap();
    assert!(frames.main.is_none());
    assert!(frames.extras.is_empty());
    assert_eq!(payload_offset(&[]).unwrap(), 0);
}

#[test]
fn scan_stops_at_zstd_magic() {
    let mut bytes = ZSTD_FRAME_MAGIC.to_le_bytes().to_vec();
    bytes.extend(frame(PROJZST_FRAME_MAGIC, 1, &[7]));
    let frames = scan_header_frames(&bytes).unwrap();
    assert!(frames.main.is_none());
    assert_eq!(payload_offset(&bytes).unwrap(), 0);
}

#[test]
fn scan_rejects_three_byte_file() {
    let r = scan_header_frames(&[0u8, 1, 2]);
    assert!(matches!(r, Err(ProjzstError::InvalidFileHeader)));
}

#[test]
fn scan_rejects_partial_magic_after_frame() {
    let mut bytes = frame(PROJZST_FRAME_MAGIC, 1, &[5]);
    bytes.extend_from_slice(&[0x28, 0xB5]);
    assert!(matches!(scan_header_frames(&bytes), Err(ProjzstError::InvalidFileHeader)));
}

#[test]
fn scan_rejects_oversized_frame() {
    let size: u32 = (MAX_METADATA_SIZE + 1) as u32;
    let bytes = frame(PROJZST_FRAME_MAGIC, size, &[]);
    match scan_header_frames(&bytes) {
        Err(ProjzstError::InvalidMetadataLength(n)) => assert_eq!(n, MAX_METADATA_SIZE + 1),
        other => panic!("unexpected: {:?}", other.map(|f| f.main)),
    }
}

#[test]
fn scan_accepts_frame_of_maximal_size_declared_but_reports_missing_bytes() {
    let bytes = frame(PROJZST_FRAME_MAGIC, MAX_METADATA_SIZE as u32, &[1, 2, 3]);
    match scan_header_frames(&bytes) {
        Err(ProjzstError::Io(e)) => assert_eq!(e.kind(), std::io::ErrorKind::UnexpectedEof),
        _ => panic!("expected an io error"),
    }
}

#[test]
fn scan_reports_truncated_length_field() {
    let mut bytes = PROJZST_FRAME_MAGIC.to_le_bytes().to_vec();
    bytes.extend_from_slice(&[1, 0]);
    assert!(matches!(scan_header_frames(&bytes), Err(ProjzstError::Io(_))));
    assert!(matches!(payload_offset(&bytes), Err(ProjzstError::Io(_))));
}

#[test]
fn scan_reports_unknown_frame_with_truncated_length() {
    let bytes = vec![1u8, 2, 3, 4, 5];
    assert!(matches!(scan_header_frames(&bytes), Err(ProjzstError::Io(_))));
}

#[test]
fn scan_skips_unknown_skippable_frame() {
    let mut bytes = frame(0x184D2A51, 2, &[0xFF, 0xFF]);
    bytes.extend(frame(PROJZST_FRAME_MAGIC, 1, &[42]));
    let frames = scan_header_frames(&bytes).unwrap();
    assert_eq!(frames.main, Some(vec![42]));
    assert!(frames.extras.is_empty());
    // The payload starts at the unknown frame: the Zstd decoder skips it itself.
    assert_eq!(payload_offset(&bytes).unwrap(), 0);
}

#[test]
fn scan_skipping_past_the_end_ends_the_header() {
    let mut bytes = frame(PROJZST_FRAME_MAGIC, 1, &[1]);
    bytes.extend(frame(0x12345678, 1000, &[0, 0]));
    let frames = scan_header_frames(&bytes).unwrap();
    assert_eq!(frames.main, Some(vec![1]));
    assert_eq!(payload_offset(&bytes).unwrap(), 9);
}

#[test]
fn payload_offset_past_truncated_last_frame_is_the_end() {
    let bytes = frame(PROJZST_FRAME_MAGIC, 50, &[1, 2]);
    assert_eq!(payload_offset(&bytes).unwrap(), bytes.len());
}

#[test]
fn payload_offset_of_partial_magic_is_the_end() {
    let mut bytes = frame(PROJZST_FRAME_MAGIC, 0, &[]);
    bytes.extend_from_slice(&[1, 2]);
    assert_eq!(payload_offset(&bytes).unwrap(), bytes.len());
}

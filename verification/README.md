# projzst

Pack a directory into a `.pjz` archive with metadata, and read it back.

A `.pjz` file is a run of Zstd skippable frames that carry MessagePack metadata, followed
by a standard Zstd frame that holds a tar archive of the directory:

    [magic 0x184D2A50][u32 LE length][MessagePack payload]   frame 0: main frame
    [magic 0x184D2A50][u32 LE length][MessagePack payload]   frames 1..: extra frames
    [Zstd frame: tar archive]

Empty metadata is written as no frame at all, a pure Zstd archive.

Layout:

- `src/` is the verified library (Verus): the frame format (`frame`, `header`), the
  metadata model (`metadata`, `string_utils`), and the planning of packs and the
  gathering of read metadata (`builder`). `header` proves that a written header reads
  back as written and where the Zstd payload starts; `builder` proves that the frames
  planned from metadata give that metadata back.
- `app/` is the command-line program: file I/O, MessagePack and JSON rendering, and the
  Zstd/tar streams.
- `tests/` runs the library on concrete inputs.

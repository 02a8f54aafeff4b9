//! Planning the archive operations: the pack builder, the frames of a header, and the
//! unpacker.

use crate::errors::ProjzstError;
use crate::frame::{ExtraFrame, MainFrame};
use crate::metadata::{
    collected_extras, decoded_text_fields, no_text_fields, FullMetadata, TextFields,
};
use crate::outside::{json_text_value, parse_json_text};
use std::path::PathBuf;
use vstd::prelude::*;

verus! {

/// Default zstd compression level of the pack operation.
pub const DEFAULT_ZSTD_LEVEL: i32 = 6;

/// The frames that a header is written as: the main frame, then the extra frames.
#[derive(Debug, Clone)]
pub struct HeaderPlan {
    pub main: MainFrame,
    pub extras: Vec<ExtraFrame>,
}

/// `plan` is the header of metadata with descriptive fields `fields` and extra values
/// `values`: no frame at all for empty metadata; otherwise a main frame of format
/// version 0 that carries the fields, and one extra frame per value, in order, numbered
/// from 1.
pub open spec fn is_header_plan(fields: TextFields, values: Seq<serde_json::Value>, plan: Option<
    HeaderPlan,
>) -> bool {
    match plan {
        None => fields == no_text_fields() && values.len() == 0,
        Some(p) => {
            &&& !(fields == no_text_fields() && values.len() == 0)
            &&& p.main.pjz == 0
            &&& p.main.text_fields() == fields
            &&& p.main.total is None
            &&& p.main.tail is None
            &&& p.extras@.len() == values.len()
            &&& forall|i: int|
                0 <= i < values.len() ==> {
                    &&& (#[trigger] p.extras@[i]).frame == i + 1
                    &&& p.extras@[i].extra == Some(values[i])
                }
        },
    }
}

impl FullMetadata {
    /// The frames that this metadata is written as; `None` when it is empty, which is
    /// written as no frame at all (a pure Zstd archive).
    pub fn into_header_frames(self) -> (r: Option<HeaderPlan>)
        requires
            self.head_extra@.len() < u32::MAX,
        ensures
            is_header_plan(self.text_fields(), self.head_extra@, r),
    {
        if self.is_empty() {
            return None;
        }
        let ghost values = self.head_extra@;
        let FullMetadata { name, auth, fmt, ed, ver, desc, head_extra } = self;
        let mut main = MainFrame::new(0);
        main.name = name;
        main.auth = auth;
        main.fmt = fmt;
        main.ed = ed;
        main.ver = ver;
        main.desc = desc;
        let mut extras: Vec<ExtraFrame> = Vec::new();
        let mut index: u32 = 1;
        for value in it: head_extra
            invariant
                it.seq() == values,
                values.len() < u32::MAX,
                index == it.index() + 1,
                extras@.len() == it.index(),
                forall|i: int|
                    0 <= i < it.index() ==> {
                        &&& (#[trigger] extras@[i]).frame == i + 1
                        &&& extras@[i].extra == Some(values[i])
                    },
        {
            extras.push(ExtraFrame::new(index, value));
            index = index + 1;
        }
        Some(HeaderPlan { main, extras })
    }
}

/// The main frame that a reader decodes from the header of `plan`.
pub open spec fn planned_main(plan: Option<HeaderPlan>) -> Option<MainFrame> {
    match plan {
        Some(p) => Some(p.main),
        None => None,
    }
}

/// The extra frames that a reader decodes from the header of `plan`, each decoded.
pub open spec fn planned_extras(plan: Option<HeaderPlan>) -> Seq<Option<ExtraFrame>> {
    match plan {
        Some(p) => p.extras@.map_values(|e: ExtraFrame| Some(e)),
        None => Seq::empty(),
    }
}

proof fn lemma_collect_numbered_extras(frames: Seq<ExtraFrame>, values: Seq<serde_json::Value>)
    requires
        frames.len() == values.len(),
        forall|i: int| 0 <= i < values.len() ==> (#[trigger] frames[i]).extra == Some(values[i]),
    ensures
        collected_extras(frames.map_values(|e: ExtraFrame| Some(e))) == values,
    decreases frames.len(),
{
    let decoded = frames.map_values(|e: ExtraFrame| Some(e));
    if frames.len() == 0 {
        assert(values =~= Seq::<serde_json::Value>::empty());
    } else {
        let n: int = frames.len() - 1;
        lemma_collect_numbered_extras(frames.drop_last(), values.drop_last());
        assert(decoded.drop_last() =~= frames.drop_last().map_values(|e: ExtraFrame| Some(e)));
        assert(frames[n].extra == Some(values[n]));
        assert(values.drop_last().push(values[n]) =~= values);
    }
}

/// Reading back a header gives the metadata it was planned from: the fields of the
/// decoded main frame are the metadata's fields, and the values of the decoded extra
/// frames are its extra values, in order (for empty metadata: no frame, and nothing read).
pub proof fn lemma_metadata_roundtrip(
    fields: TextFields,
    values: Seq<serde_json::Value>,
    plan: Option<HeaderPlan>,
)
    requires
        is_header_plan(fields, values, plan),
    ensures
        decoded_text_fields(planned_main(plan)) == fields,
        collected_extras(planned_extras(plan)) == values,
{
    match plan {
        Some(p) => {
            lemma_collect_numbered_extras(p.extras@, values);
        },
        None => {
            assert(values =~= Seq::<serde_json::Value>::empty());
        },
    }
}

/// The extra values of metadata after an optional extra value is appended.
pub open spec fn with_extra(values: Seq<serde_json::Value>, extra: Option<serde_json::Value>) -> Seq<
    serde_json::Value,
> {
    match extra {
        Some(v) => values.push(v),
        None => values,
    }
}

/// The pack builder.
#[derive(Debug, Clone)]
pub struct Packer {
    input_file: PathBuf,
    output_file: PathBuf,
    metadata: FullMetadata,
    extra_file: Option<PathBuf>,
    compression_level: i32,
}

/// What a pack writes: the source and target paths, the compression level, and the
/// frames of the header (`None`: no frame).
#[derive(Debug, Clone)]
pub struct PackJob {
    pub input_file: PathBuf,
    pub output_file: PathBuf,
    pub compression_level: i32,
    pub header: Option<HeaderPlan>,
}

impl Packer {
    /// The source directory.
    pub closed spec fn spec_input_file(&self) -> PathBuf {
        self.input_file
    }

    /// The archive to write.
    pub closed spec fn spec_output_file(&self) -> PathBuf {
        self.output_file
    }

    /// The metadata to write.
    pub closed spec fn spec_metadata(&self) -> FullMetadata {
        self.metadata
    }

    /// The JSON file whose object is added as an extra frame, if any.
    pub closed spec fn spec_extra_file(&self) -> Option<PathBuf> {
        self.extra_file
    }

    /// The zstd compression level.
    pub closed spec fn spec_compression_level(&self) -> i32 {
        self.compression_level
    }

    /// A packer of `input_file` into `output_file`, with empty metadata, no extra file and
    /// the default compression level.
    pub fn new(input_file: PathBuf, output_file: PathBuf) -> (r: Self)
        ensures
            r.spec_input_file() == input_file,
            r.spec_output_file() == output_file,
            r.spec_metadata().spec_is_empty(),
            r.spec_extra_file() is None,
            r.spec_compression_level() == DEFAULT_ZSTD_LEVEL,
    {
        Packer {
            input_file,
            output_file,
            metadata: FullMetadata::default(),
            extra_file: None,
            compression_level: DEFAULT_ZSTD_LEVEL,
        }
    }

    /// Sets the metadata to write.
    pub fn add_metadata(self, metadata: FullMetadata) -> (r: Self)
        ensures
            r.spec_metadata() == metadata,
            r.spec_input_file() == self.spec_input_file(),
            r.spec_output_file() == self.spec_output_file(),
            r.spec_extra_file() == self.spec_extra_file(),
            r.spec_compression_level() == self.spec_compression_level(),
    {
        let mut p = self;
        p.metadata = metadata;
        p
    }

    /// Sets the zstd compression level.
    pub fn compression_level(self, compression_level: i32) -> (r: Self)
        ensures
            r.spec_compression_level() == compression_level,
            r.spec_input_file() == self.spec_input_file(),
            r.spec_output_file() == self.spec_output_file(),
            r.spec_metadata() == self.spec_metadata(),
            r.spec_extra_file() == self.spec_extra_file(),
    {
        let mut p = self;
        p.compression_level = compression_level;
        p
    }

    /// Sets the JSON file whose object is added as an extra frame.
    pub fn extra_file(self, extra_file: Option<PathBuf>) -> (r: Self)
        ensures
            r.spec_extra_file() == extra_file,
            r.spec_input_file() == self.spec_input_file(),
            r.spec_output_file() == self.spec_output_file(),
            r.spec_metadata() == self.spec_metadata(),
            r.spec_compression_level() == self.spec_compression_level(),
    {
        let mut p = self;
        p.extra_file = extra_file;
        p
    }

    /// The source directory.
    pub fn input_file(&self) -> (r: &PathBuf)
        ensures
            *r == self.spec_input_file(),
    {
        &self.input_file
    }

    /// The archive to write.
    pub fn output_file(&self) -> (r: &PathBuf)
        ensures
            *r == self.spec_output_file(),
    {
        &self.output_file
    }

    /// The metadata to write.
    pub fn metadata(&self) -> (r: &FullMetadata)
        ensures
            *r == self.spec_metadata(),
    {
        &self.metadata
    }

    /// The JSON file whose object is added as an extra frame, if any.
    pub fn extra_path(&self) -> (r: &Option<PathBuf>)
        ensures
            *r == self.spec_extra_file(),
    {
        &self.extra_file
    }

    /// The zstd compression level.
    pub fn level(&self) -> (r: i32)
        ensures
            r == self.spec_compression_level(),
    {
        self.compression_level
    }

    /// Plans the pack: the value read from the extra file, if any, is appended to the
    /// metadata's extra values, and the metadata is planned as header frames.
    pub fn into_job(self, extra: Option<serde_json::Value>) -> (job: PackJob)
        requires
            with_extra(self.spec_metadata().head_extra@, extra).len() < u32::MAX,
        ensures
            job.input_file == self.spec_input_file(),
            job.output_file == self.spec_output_file(),
            job.compression_level == self.spec_compression_level(),
            is_header_plan(
                self.spec_metadata().text_fields(),
                with_extra(self.spec_metadata().head_extra@, extra),
                job.header,
            ),
            extra matches Some(v) ==> is_header_plan(
                self.spec_metadata().text_fields(),
                self.spec_metadata().head_extra@.push(v),
                job.header,
            ),
            extra is None ==> is_header_plan(
                self.spec_metadata().text_fields(),
                self.spec_metadata().head_extra@,
                job.header,
            ),
    {
        let Packer { input_file, output_file, metadata, extra_file: _, compression_level } = self;
        let mut metadata = metadata;
        if let Some(value) = extra {
            metadata.add_head_extra(value);
        }
        let header = metadata.into_header_frames();
        PackJob { input_file, output_file, compression_level, header }
    }
}

/// The unpacker: extraction and metadata inspection of an archive.
#[derive(Debug, Clone)]
pub struct Unpacker {
    input_file: PathBuf,
}

impl Unpacker {
    /// The archive to read.
    pub closed spec fn spec_input_file(&self) -> PathBuf {
        self.input_file
    }

    /// An unpacker of the archive `input_file`.
    pub fn new(input_file: PathBuf) -> (r: Self)
        ensures
            r.spec_input_file() == input_file,
    {
        Unpacker { input_file }
    }

    /// The archive to read.
    pub fn input_file(&self) -> (r: &PathBuf)
        ensures
            *r == self.spec_input_file(),
    {
        &self.input_file
    }
}

/// The extra value, or the error, that follows from parsing an extra JSON file.
pub fn extra_from_parsed(parsed: Result<serde_json::Value, serde_json::Error>) -> (r: Result<
    serde_json::Value,
    ProjzstError,
>)
    ensures
        match parsed {
            Ok(v) => r matches Ok(w) && w == v,
            Err(e) => r matches Err(ProjzstError::Json(f)) && f == e,
        },
{
    match parsed {
        Ok(v) => Ok(v),
        Err(e) => Err(ProjzstError::Json(e)),
    }
}

/// Parses the text of an extra JSON file into the value added as an extra frame.
pub fn parse_extra_json(content: &str) -> (r: Result<serde_json::Value, ProjzstError>)
    ensures
        match json_text_value(content@) {
            Some(v) => r matches Ok(w) && w == v,
            None => r matches Err(e) && e is Json,
        },
{
    extra_from_parsed(parse_json_text(content))
}

/// The value read from an extra file comes after the metadata's own extra values: it is
/// appended to them, and nothing else changes; without an extra file they stay as they are.
pub proof fn lemma_extra_file_value_appended(
    values: Seq<serde_json::Value>,
    value: serde_json::Value,
)
    ensures
        with_extra(values, Some(value)) == values.push(value),
        with_extra(values, Some(value)).len() == values.len() + 1,
        with_extra(values, Some(value)).last() == value,
        with_extra(values, Some(value)).drop_last() == values,
        with_extra(values, None) == values,
{
    assert(values.push(value).drop_last() =~= values);
}

/// What a header plan is: no frame exactly when no field is set and there is no extra
/// value; otherwise a main frame of format version 0 with exactly the metadata's fields
/// and no total or tail, and one extra frame per extra value, the i-th numbered i + 1 and
/// carrying the i-th value.
pub proof fn lemma_header_plan_shape(
    fields: TextFields,
    values: Seq<serde_json::Value>,
    plan: Option<HeaderPlan>,
)
    requires
        is_header_plan(fields, values, plan),
    ensures
        plan is None <==> (fields.0 is None && fields.1 is None && fields.2 is None && fields.3
            is None && fields.4 is None && fields.5 is None && values.len() == 0),
        plan matches Some(p) ==> {
            &&& p.main.pjz == 0
            &&& p.main.name == fields.0
            &&& p.main.auth == fields.1
            &&& p.main.fmt == fields.2
            &&& p.main.ed == fields.3
            &&& p.main.ver == fields.4
            &&& p.main.desc == fields.5
            &&& p.main.total is None
            &&& p.main.tail is None
            &&& p.extras@.len() == values.len()
            &&& forall|i: int|
                0 <= i < values.len() ==> (#[trigger] p.extras@[i]).frame == i + 1
                    && p.extras@[i].extra == Some(values[i])
        },
{
}

} // verus!

//! Metadata of a `.pjz` archive.

use crate::frame::{ExtraFrame, MainFrame};
use crate::string_utils::{opt_text, IntoOpStr};
use vstd::prelude::*;

verus! {

/// Builder-style setters of the descriptive fields of archive metadata.
pub trait Metadata: Sized {
    fn name(self, name: Option<String>) -> Self;

    fn auth(self, auth: Option<String>) -> Self;

    fn fmt(self, fmt: Option<String>) -> Self;

    fn ed(self, ed: Option<String>) -> Self;

    fn ver(self, ver: Option<String>) -> Self;

    fn desc(self, desc: Option<String>) -> Self;
}

/// The six descriptive fields: name, author, format, edition, version, description.
pub type TextFields = (
    Option<String>,
    Option<String>,
    Option<String>,
    Option<String>,
    Option<String>,
    Option<String>,
);

/// Core in-memory metadata, gathered from the frames of an archive.
#[derive(Debug, Clone, PartialEq)]
pub struct FullMetadata {
    pub name: Option<String>,
    pub auth: Option<String>,
    pub fmt: Option<String>,
    pub ed: Option<String>,
    pub ver: Option<String>,
    pub desc: Option<String>,
    /// Extra JSON values inserted in the header area, in order.
    pub head_extra: Vec<serde_json::Value>,
}

impl FullMetadata {
    /// The descriptive fields of this metadata.
    pub open spec fn text_fields(&self) -> TextFields {
        (self.name, self.auth, self.fmt, self.ed, self.ver, self.desc)
    }

    /// No field is set and no extra value is held.
    pub open spec fn spec_is_empty(&self) -> bool {
        &&& self.name is None
        &&& self.auth is None
        &&& self.fmt is None
        &&& self.ed is None
        &&& self.ver is None
        &&& self.desc is None
        &&& self.head_extra@.len() == 0
    }

    /// Creates metadata with the given descriptive fields and no extra values.
    pub fn new<S1, S2, S3, S4, S5, S6>(
        name: S1,
        auth: S2,
        fmt: S3,
        ed: S4,
        ver: S5,
        desc: S6,
    ) -> (r: Self) where
        S1: IntoOpStr,
        S2: IntoOpStr,
        S3: IntoOpStr,
        S4: IntoOpStr,
        S5: IntoOpStr,
        S6: IntoOpStr,

        ensures
            opt_text(r.name) == name.op_text(),
            opt_text(r.auth) == auth.op_text(),
            opt_text(r.fmt) == fmt.op_text(),
            opt_text(r.ed) == ed.op_text(),
            opt_text(r.ver) == ver.op_text(),
            opt_text(r.desc) == desc.op_text(),
            r.head_extra@.len() == 0,
    {
        FullMetadata {
            name: name.into_op_str(),
            auth: auth.into_op_str(),
            fmt: fmt.into_op_str(),
            ed: ed.into_op_str(),
            ver: ver.into_op_str(),
            desc: desc.into_op_str(),
            head_extra: Vec::new(),
        }
    }

    /// Appends a JSON value to `head_extra`.
    pub fn add_head_extra(&mut self, extra: serde_json::Value)
        ensures
            final(self).text_fields() == old(self).text_fields(),
            final(self).head_extra@ == old(self).head_extra@.push(extra),
    {
        self.head_extra.push(extra);
    }

    /// Whether all descriptive fields and the extra list are empty; such metadata is
    /// written as no frame at all.
    pub fn is_empty(&self) -> (r: bool)
        ensures
            r == self.spec_is_empty(),
    {
        self.name.is_none() && self.auth.is_none() && self.fmt.is_none() && self.ed.is_none()
            && self.ver.is_none() && self.desc.is_none() && self.head_extra.is_empty()
    }
}

impl Default for FullMetadata {
    fn default() -> (r: Self)
        ensures
            r.spec_is_empty(),
    {
        FullMetadata {
            name: None,
            auth: None,
            fmt: None,
            ed: None,
            ver: None,
            desc: None,
            head_extra: Vec::new(),
        }
    }
}

impl Metadata for FullMetadata {
    fn name(self, name: Option<String>) -> (r: Self)
        ensures
            r.text_fields() == (name, self.auth, self.fmt, self.ed, self.ver, self.desc),
            r.head_extra == self.head_extra,
    {
        let mut m = self;
        m.name = name;
        m
    }

    fn auth(self, auth: Option<String>) -> (r: Self)
        ensures
            r.text_fields() == (self.name, auth, self.fmt, self.ed, self.ver, self.desc),
            r.head_extra == self.head_extra,
    {
        let mut m = self;
        m.auth = auth;
        m
    }

    fn fmt(self, fmt: Option<String>) -> (r: Self)
        ensures
            r.text_fields() == (self.name, self.auth, fmt, self.ed, self.ver, self.desc),
            r.head_extra == self.head_extra,
    {
        let mut m = self;
        m.fmt = fmt;
        m
    }

    fn ed(self, ed: Option<String>) -> (r: Self)
        ensures
            r.text_fields() == (self.name, self.auth, self.fmt, ed, self.ver, self.desc),
            r.head_extra == self.head_extra,
    {
        let mut m = self;
        m.ed = ed;
        m
    }

    fn ver(self, ver: Option<String>) -> (r: Self)
        ensures
            r.text_fields() == (self.name, self.auth, self.fmt, self.ed, ver, self.desc),
            r.head_extra == self.head_extra,
    {
        let mut m = self;
        m.ver = ver;
        m
    }

    fn desc(self, desc: Option<String>) -> (r: Self)
        ensures
            r.text_fields() == (self.name, self.auth, self.fmt, self.ed, self.ver, desc),
            r.head_extra == self.head_extra,
    {
        let mut m = self;
        m.desc = desc;
        m
    }
}

/// The descriptive fields of an archive alone, without the extra values.
#[derive(Debug, Clone, PartialEq, Eq)]
pub struct BasicMetadata {
    pub name: Option<String>,
    pub auth: Option<String>,
    pub fmt: Option<String>,
    pub ed: Option<String>,
    pub ver: Option<String>,
    pub desc: Option<String>,
}

impl BasicMetadata {
    /// The descriptive fields.
    pub open spec fn text_fields(&self) -> TextFields {
        (self.name, self.auth, self.fmt, self.ed, self.ver, self.desc)
    }
}

impl Default for BasicMetadata {
    fn default() -> (r: Self)
        ensures
            r.text_fields() == (
                None::<String>,
                None::<String>,
                None::<String>,
                None::<String>,
                None::<String>,
                None::<String>,
            ),
    {
        BasicMetadata { name: None, auth: None, fmt: None, ed: None, ver: None, desc: None }
    }
}

impl Metadata for BasicMetadata {
    fn name(self, name: Option<String>) -> (r: Self)
        ensures
            r.text_fields() == (name, self.auth, self.fmt, self.ed, self.ver, self.desc),
    {
        let mut m = self;
        m.name = name;
        m
    }

    fn auth(self, auth: Option<String>) -> (r: Self)
        ensures
            r.text_fields() == (self.name, auth, self.fmt, self.ed, self.ver, self.desc),
    {
        let mut m = self;
        m.auth = auth;
        m
    }

    fn fmt(self, fmt: Option<String>) -> (r: Self)
        ensures
            r.text_fields() == (self.name, self.auth, fmt, self.ed, self.ver, self.desc),
    {
        let mut m = self;
        m.fmt = fmt;
        m
    }

    fn ed(self, ed: Option<String>) -> (r: Self)
        ensures
            r.text_fields() == (self.name, self.auth, self.fmt, ed, self.ver, self.desc),
    {
        let mut m = self;
        m.ed = ed;
        m
    }

    fn ver(self, ver: Option<String>) -> (r: Self)
        ensures
            r.text_fields() == (self.name, self.auth, self.fmt, self.ed, ver, self.desc),
    {
        let mut m = self;
        m.ver = ver;
        m
    }

    fn desc(self, desc: Option<String>) -> (r: Self)
        ensures
            r.text_fields() == (self.name, self.auth, self.fmt, self.ed, self.ver, desc),
    {
        let mut m = self;
        m.desc = desc;
        m
    }
}

/// No descriptive field set.
pub open spec fn no_text_fields() -> TextFields {
    (None, None, None, None, None, None)
}

/// The descriptive fields taken from a decoded main frame: none where it is absent or
/// did not decode.
pub open spec fn decoded_text_fields(main: Option<MainFrame>) -> TextFields {
    match main {
        Some(f) => f.text_fields(),
        None => no_text_fields(),
    }
}

/// The JSON values carried by decoded extra frames, in order. A frame that did not decode
/// (`None`), or that carries no value, adds nothing.
pub open spec fn collected_extras(frames: Seq<Option<ExtraFrame>>) -> Seq<serde_json::Value>
    decreases frames.len(),
{
    if frames.len() == 0 {
        Seq::empty()
    } else {
        let before = collected_extras(frames.drop_last());
        match frames.last() {
            Some(f) => match f.extra {
                Some(v) => before.push(v),
                None => before,
            },
            None => before,
        }
    }
}

impl FullMetadata {
    /// Gathers metadata from the decoded frames of a header: the descriptive fields of
    /// the main frame (frame 0), and the values of the extra frames in order.
    pub fn from_decoded_frames(main: Option<MainFrame>, extras: Vec<Option<ExtraFrame>>) -> (r:
        Self)
        ensures
            r.text_fields() == decoded_text_fields(main),
            r.head_extra@ == collected_extras(extras@),
    {
        let mut metadata = FullMetadata::default();
        if let Some(frame) = main {
            metadata.name = frame.name;
            metadata.auth = frame.auth;
            metadata.fmt = frame.fmt;
            metadata.ed = frame.ed;
            metadata.ver = frame.ver;
            metadata.desc = frame.desc;
        }
        let ghost frames = extras@;
        assert(frames.take(0) =~= Seq::<Option<ExtraFrame>>::empty());
        for item in it: extras
            invariant
                it.seq() == frames,
                metadata.text_fields() == decoded_text_fields(main),
                metadata.head_extra@ == collected_extras(frames.take(it.index() as int)),
        {
            let ghost i = it.index();
            assert(frames.take(i + 1).drop_last() =~= frames.take(i as int));
            if let Some(frame) = item {
                if let Some(value) = frame.extra {
                    metadata.add_head_extra(value);
                }
            }
        }
        assert(frames.take(frames.len() as int) =~= frames);
        metadata
    }
}

/// The descriptive fields of metadata are its name, author, format, edition, version and
/// description, in that order; and metadata is empty exactly when none of them is set and
/// it holds no extra value.
pub proof fn lemma_fields_and_emptiness(m: FullMetadata, b: BasicMetadata, f: MainFrame)
    ensures
        m.text_fields() == (m.name, m.auth, m.fmt, m.ed, m.ver, m.desc),
        b.text_fields() == (b.name, b.auth, b.fmt, b.ed, b.ver, b.desc),
        f.text_fields() == (f.name, f.auth, f.fmt, f.ed, f.ver, f.desc),
        no_text_fields() == (
            None::<String>,
            None::<String>,
            None::<String>,
            None::<String>,
            None::<String>,
            None::<String>,
        ),
        m.spec_is_empty() <==> (m.name is None && m.auth is None && m.fmt is None && m.ed is None
            && m.ver is None && m.desc is None && m.head_extra@.len() == 0),
        m.spec_is_empty() <==> (m.text_fields() == no_text_fields() && m.head_extra@.len() == 0),
{
}

/// A decoded main frame gives its own fields; none at all gives no field.
pub proof fn lemma_decoded_fields(f: MainFrame)
    ensures
        decoded_text_fields(Some(f)) == (f.name, f.auth, f.fmt, f.ed, f.ver, f.desc),
        decoded_text_fields(None) == (
            None::<String>,
            None::<String>,
            None::<String>,
            None::<String>,
            None::<String>,
            None::<String>,
        ),
{
}

/// Collecting extra values, one frame at a time: no frame gives no value; a frame that
/// did not decode adds nothing and removes nothing; a decoded frame adds its value, if it
/// has one, after those collected before.
pub proof fn lemma_collected_extras_step(frames: Seq<Option<ExtraFrame>>, frame: ExtraFrame)
    ensures
        collected_extras(Seq::empty()) == Seq::<serde_json::Value>::empty(),
        collected_extras(frames.push(None)) == collected_extras(frames),
        collected_extras(frames.push(Some(frame))) == (match frame.extra {
            Some(v) => collected_extras(frames).push(v),
            None => collected_extras(frames),
        }),
{
    assert(frames.push(None).drop_last() =~= frames);
    assert(frames.push(Some(frame)).drop_last() =~= frames);
}

/// The values collected from two runs of frames are those of the first run followed by
/// those of the second.
pub proof fn lemma_collected_extras_concat(
    first: Seq<Option<ExtraFrame>>,
    second: Seq<Option<ExtraFrame>>,
)
    ensures
        collected_extras(first + second) == collected_extras(first) + collected_extras(second),
    decreases second.len(),
{
    if second.len() == 0 {
        assert(first + second =~= first);
        assert(collected_extras(first) + collected_extras(second) =~= collected_extras(first));
    } else {
        let shorter = second.drop_last();
        lemma_collected_extras_concat(first, shorter);
        assert((first + second).drop_last() =~= first + shorter);
        assert((first + second).last() == second.last());
        lemma_push_after_concat(collected_extras(first), collected_extras(shorter));
    }
}

/// Appending after a concatenation appends to its second part.
proof fn lemma_push_after_concat(a: Seq<serde_json::Value>, b: Seq<serde_json::Value>)
    ensures
        forall|v: serde_json::Value| #[trigger] a.add(b).push(v) == a.add(b.push(v)),
{
    assert forall|v: serde_json::Value| #[trigger] a.add(b).push(v) == a.add(b.push(v)) by {
        assert(a.add(b).push(v) =~= a.add(b.push(v)));
    }
}

} // verus!

//! Conversions of optional text arguments.

use vstd::prelude::*;

verus! {

/// The text of an optional string.
pub open spec fn opt_text(s: Option<String>) -> Option<Seq<char>> {
    match s {
        Some(t) => Some(t@),
        None => None,
    }
}

/// Values that stand for an optional string: a text, or an optional text.
pub trait IntoOpStr: Sized {
    /// The text that the value stands for, if any.
    spec fn op_text(&self) -> Option<Seq<char>>;

    /// Converts the value into an optional owned string.
    fn into_op_str(self) -> (r: Option<String>)
        ensures
            opt_text(r) == self.op_text(),
    ;
}

impl<'a> IntoOpStr for &'a str {
    open spec fn op_text(&self) -> Option<Seq<char>> {
        Some(self@)
    }

    fn into_op_str(self) -> (r: Option<String>)
        ensures
            r matches Some(t) && t@ == self@,
    {
        Some(String::from_str(self))
    }
}

impl IntoOpStr for String {
    open spec fn op_text(&self) -> Option<Seq<char>> {
        Some(self@)
    }

    fn into_op_str(self) -> (r: Option<String>)
        ensures
            r == Some(self),
    {
        Some(self)
    }
}

impl<'a> IntoOpStr for Option<&'a str> {
    open spec fn op_text(&self) -> Option<Seq<char>> {
        match self {
            Some(t) => Some(t@),
            None => None,
        }
    }

    fn into_op_str(self) -> (r: Option<String>)
        ensures
            r is Some <==> self is Some,
            r matches Some(t) ==> t@ == self.unwrap()@,
    {
        match self {
            Some(t) => Some(String::from_str(t)),
            None => None,
        }
    }
}

impl IntoOpStr for Option<String> {
    open spec fn op_text(&self) -> Option<Seq<char>> {
        opt_text(*self)
    }

    fn into_op_str(self) -> (r: Option<String>)
        ensures
            r == self,
    {
        self
    }
}

/// Every text argument stands for its own text, whole and unchanged, of any length: a
/// string or a string slice for itself, an optional one for its text or for none.
pub proof fn lemma_op_text_keeps_text(
    owned: String,
    slice: &str,
    opt_owned: Option<String>,
    opt_slice: Option<&str>,
)
    ensures
        owned.op_text() == Some(owned@),
        slice.op_text() == Some(slice@),
        opt_owned.op_text() == (match opt_owned {
            Some(t) => Some(t@),
            None => None::<Seq<char>>,
        }),
        opt_slice.op_text() == (match opt_slice {
            Some(t) => Some(t@),
            None => None::<Seq<char>>,
        }),
        opt_text(opt_owned) == (match opt_owned {
            Some(t) => Some(t@),
            None => None::<Seq<char>>,
        }),
{
}

} // verus!

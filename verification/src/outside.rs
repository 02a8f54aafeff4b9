//! Declarations of the outside types that the library carries, and the wrappers of the
//! outside functions that it calls.

use vstd::prelude::*;

verus! {

/// `serde_json::Value`: an extra JSON object carried through the header unchanged.
#[verifier::external_type_specification]
#[verifier::external_body]
pub struct ExJsonValue(serde_json::Value);

/// `serde_json::Error`: why a JSON text did not parse.
#[verifier::external_type_specification]
#[verifier::external_body]
pub struct ExJsonError(serde_json::Error);

/// `std::io::Error`: an input/output failure, among them a header cut short.
#[verifier::external_type_specification]
#[verifier::external_body]
pub struct ExIoError(std::io::Error);

/// `rmp_serde::encode::Error`: a MessagePack encoding failure.
#[verifier::external_type_specification]
#[verifier::external_body]
pub struct ExMsgPackEncodeError(rmp_serde::encode::Error);

/// `rmp_serde::decode::Error`: a MessagePack decoding failure.
#[verifier::external_type_specification]
#[verifier::external_body]
pub struct ExMsgPackDecodeError(rmp_serde::decode::Error);

/// `std::path::PathBuf`: a file system path, carried through unchanged.
#[verifier::external_type_specification]
#[verifier::external_body]
pub struct ExPathBuf(std::path::PathBuf);

/// `<PathBuf as Clone>::clone`, which the derived `Clone` of the builders calls. Trusted: it
/// returns a copy of the path, as std documents.
pub assume_specification[ <std::path::PathBuf as Clone>::clone ](path: &std::path::PathBuf) -> (r:
    std::path::PathBuf)
    ensures
        r == *path,
;

/// The value that `serde_json::from_str::<serde_json::Value>` gives for a text, or `None`
/// where it reports an error.
pub uninterp spec fn json_text_value(text: Seq<char>) -> Option<serde_json::Value>;

/// Calls `serde_json::from_str::<serde_json::Value>`. Trusted: the call succeeds exactly
/// when `json_text_value` names a value for the text, and then returns that value; the
/// result depends on the text alone.
#[verifier::external_body]
pub(crate) fn parse_json_text(text: &str) -> (r: Result<serde_json::Value, serde_json::Error>)
    ensures
        r is Ok <==> json_text_value(text@) is Some,
        r matches Ok(v) ==> json_text_value(text@) == Some(v),
{
    serde_json::from_str(text)
}

/// Calls `std::io::Error::from(std::io::ErrorKind::UnexpectedEof)`, the error that a read
/// cut short by the end of the input reports. Nothing is stated of the opaque value.
#[verifier::external_body]
pub(crate) fn unexpected_eof_error() -> std::io::Error {
    std::io::Error::from(std::io::ErrorKind::UnexpectedEof)
}

} // verus!

//! JSON text, read and written through `serde_json`.
//!
//! Parsed documents are values of `serde_json::Value`, which verified code
//! carries around without looking inside.  What the parser and the accessors
//! of such a value return is given a name each, so that the decoding built
//! on them can be stated exactly.

use vstd::prelude::*;

verus! {

/// `serde_json::Value`, a parsed JSON document, which verified code holds
/// without seeing inside.
#[verifier::external_type_specification]
#[verifier::external_body]
pub struct ExValue(serde_json::Value);

/// The document that `serde_json::from_str` reads from `raw`, or `None` if
/// it rejects `raw`.
pub uninterp spec fn json_parse(raw: Seq<char>) -> Option<serde_json::Value>;

/// The member called `name` of the object `doc`, or `None` if `doc` is not
/// an object or has no such member.
pub uninterp spec fn json_member(doc: serde_json::Value, name: Seq<char>) -> Option<
    serde_json::Value,
>;

/// The integer that `doc` is, or `None` if `doc` is not a number that an
/// `i64` holds.
pub uninterp spec fn json_int(doc: serde_json::Value) -> Option<i64>;

/// The string that `doc` is, or `None` if `doc` is not a string.
pub uninterp spec fn json_text(doc: serde_json::Value) -> Option<Seq<char>>;

/// The elements of the array `doc`, or `None` if `doc` is not an array.
pub uninterp spec fn json_items(doc: serde_json::Value) -> Option<Seq<serde_json::Value>>;

/// The JSON string literal that `serde_json::to_string` writes for `s`,
/// quotes and escapes included.
pub uninterp spec fn json_quoted(s: Seq<char>) -> Seq<char>;

/// Wraps `serde_json::from_str` at type `Value`: the document read from
/// `raw`, or the parser's diagnostic if it rejects `raw`.
#[verifier::external_body]
pub(crate) fn parse(raw: &str) -> (r: Result<serde_json::Value, String>)
    ensures
        r matches Ok(doc) ==> json_parse(raw@) == Some(doc),
        r is Err ==> json_parse(raw@) is None,
{
    match serde_json::from_str::<serde_json::Value>(raw) {
        Ok(doc) => Ok(doc),
        Err(e) => Err(format!("{:?}", e)),
    }
}

/// Wraps `Value::get` with a string index: the member called `name` of an
/// object.
#[verifier::external_body]
pub(crate) fn member<'a>(doc: &'a serde_json::Value, name: &str) -> (r: Option<
    &'a serde_json::Value,
>)
    ensures
        r matches Some(m) ==> json_member(*doc, name@) == Some(*m),
        r is None ==> json_member(*doc, name@) is None,
{
    doc.get(name)
}

/// Wraps `Value::as_i64`: the value as an integer.
#[verifier::external_body]
pub(crate) fn as_int(doc: &serde_json::Value) -> (r: Option<i64>)
    ensures
        r == json_int(*doc),
{
    doc.as_i64()
}

/// Wraps `Value::as_str`: the value as a string.
#[verifier::external_body]
pub(crate) fn as_text<'a>(doc: &'a serde_json::Value) -> (r: Option<&'a str>)
    ensures
        r matches Some(s) ==> json_text(*doc) == Some(s@),
        r is None ==> json_text(*doc) is None,
{
    doc.as_str()
}

/// Wraps `Value::as_array`: the elements of the value.
#[verifier::external_body]
pub(crate) fn as_items<'a>(doc: &'a serde_json::Value) -> (r: Option<&'a Vec<serde_json::Value>>)
    ensures
        r matches Some(items) ==> json_items(*doc) == Some(items@),
        r is None ==> json_items(*doc) is None,
{
    doc.as_array()
}

/// Wraps `serde_json::to_string` at type `str`, which does not fail on a
/// string: `s` as a JSON string literal.
#[verifier::external_body]
pub(crate) fn quote(s: &str) -> (r: String)
    ensures
        r@ == json_quoted(s@),
{
    serde_json::to_string(s).unwrap()
}

} // verus!

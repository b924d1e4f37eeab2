//! Parsing one event line and the plain fields the engine reads from it.
//!
//! A line is parsed by serde_json behind two trusted wrappers; everything
//! the engine inspects afterwards is carried as plain byte values in
//! `EventFields`, so the interpretation itself is verified.

use vstd::prelude::*;

verus! {

use crate::text::contains_bytes;
use crate::text::contains_seq;
use crate::msgs;

/// What the engine reads out of one parsed event object, as plain bytes.
/// A field is `None` when the event does not carry it with the expected
/// shape.
pub struct EventFields {
    /// Top-level `thread_id`, when it is a string.
    pub thread_id: Option<Vec<u8>>,
    /// Top-level `type`, when it is a string.
    pub kind: Option<Vec<u8>>,
    /// Whether the top-level `error` field is an object.
    pub error_is_object: bool,
    /// `error.message`, when it is a string.
    pub error_message: Option<Vec<u8>>,
    /// Top-level `message`, when it is a string.
    pub top_message: Option<Vec<u8>>,
}

/// Outcome of parsing one line.
pub enum LineParse {
    /// The line is not valid JSON; `message` is the parser's description.
    Bad { message: Vec<u8> },
    /// The line parsed; the fields the engine reads.
    Parsed { fields: EventFields },
}

/// What parsing a given line yields.  JSON parsing and string extraction
/// are deterministic in the line's bytes, so the outcome is a function of
/// them; its value is only known through `parse_event_line`.
pub uninterp spec fn line_parse_of(line: Seq<u8>) -> LineParse;

/// The `item.type` and `item.text` strings of the line's parsed object,
/// each `None` when absent or not of that shape.  Deterministic in the
/// line's bytes, and only known through `parse_item_fields`.
pub uninterp spec fn item_fields_of(line: Seq<u8>) -> (Option<Vec<u8>>, Option<Vec<u8>>);

/// The canonical serialization of the line's JSON value, when that value
/// is an object; `None` when the line does not parse or is no object.
/// Deterministic in the line's bytes.
pub uninterp spec fn object_json_of(line: Seq<u8>) -> Option<Seq<u8>>;

/// Relies on serde_json::from_str for parsing and on serde_json's
/// `Value::get`, `Value::as_str` and `Value::is_object` accessors, all
/// deterministic functions of the line's bytes: `get` selects a key of an
/// object (`None` on any other value), `as_str` hands back string values
/// only, and the parse error's rendering names what went wrong.
#[verifier::external_body]
pub(crate) fn parse_event_line(line: &[u8]) -> (r: LineParse)
    ensures
        r == line_parse_of(line@),
{
    let text = String::from_utf8_lossy(line);
    let v: serde_json::Value = match serde_json::from_str(&text) {
        Ok(v) => v,
        Err(e) => return LineParse::Bad { message: e.to_string().into_bytes() },
    };
    let s = |x: Option<&serde_json::Value>| x.and_then(|t| t.as_str()).map(|t| t.as_bytes().to_vec());
    LineParse::Parsed { fields: EventFields {
        thread_id: s(v.get("thread_id")),
        kind: s(v.get("type")),
        error_is_object: v.get("error").map_or(false, |e| e.is_object()),
        error_message: s(v.get("error").and_then(|e| e.get("message"))),
        top_message: s(v.get("message")),
    } }
}

/// Relies on serde_json::from_str and on serde_json's `Value::get` and
/// `Value::as_str` accessors, deterministic functions of the line's
/// bytes: `get` selects a key of an object and `as_str` hands back string
/// values only.
#[verifier::external_body]
pub(crate) fn parse_item_fields(line: &[u8]) -> (r: (Option<Vec<u8>>, Option<Vec<u8>>))
    ensures
        r == item_fields_of(line@),
{
    let v: serde_json::Value = match serde_json::from_str(&String::from_utf8_lossy(line)) {
        Ok(v) => v,
        Err(_) => return (None, None),
    };
    let s = |x: Option<&serde_json::Value>| x.and_then(|t| t.as_str()).map(|t| t.as_bytes().to_vec());
    (s(v.get("item").and_then(|i| i.get("type"))), s(v.get("item").and_then(|i| i.get("text"))))
}

/// Relies on serde_json::from_str, `Value::as_object` and
/// serde_json::to_string: a parsed value re-serializes to the same text
/// whenever the same bytes are parsed, and only objects are handed back.
#[verifier::external_body]
pub(crate) fn serialized_object(line: &[u8]) -> (r: Option<Vec<u8>>)
    ensures
        r is Some <==> object_json_of(line@) is Some,
        r matches Some(v) ==> object_json_of(line@) == Some(v@),
{
    let v: serde_json::Value = match serde_json::from_str(&String::from_utf8_lossy(line)) {
        Ok(v) => v,
        Err(_) => return None,
    };
    if v.is_object() {
        Some(serde_json::to_string(&v).unwrap_or_default().into_bytes())
    } else {
        None
    }
}

/// An event kind naming a failure: it contains `fail` or `error`.
pub open spec fn spec_failure_kind(kind: Option<Seq<u8>>) -> bool {
    match kind {
        Some(k) => contains_seq(k, msgs::fail_needle()) || contains_seq(k, msgs::error_needle()),
        None => false,
    }
}

/// Whether this event kind marks the run as failed.
pub fn is_failure_kind(kind: &Option<Vec<u8>>) -> (r: bool)
    ensures
        r == spec_failure_kind(crate::codex::opt_bytes(*kind)),
{
    match kind {
        Some(k) => {
            contains_bytes(k.as_slice(), "fail".as_bytes()) || contains_bytes(
                k.as_slice(),
                "error".as_bytes(),
            )
        },
        None => false,
    }
}

} // verus!

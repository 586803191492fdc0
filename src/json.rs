//! Calls into serde_json, over JSON text. Each outside function gets a name
//! for its result; it depends on the text alone. A member or element is
//! handed back as JSON text, so that it can be read again by the same calls.
use vstd::prelude::*;

verus! {

/// Whether `serde_json::from_str::<Value>` accepts the text.
pub uninterp spec fn json_valid(text: Seq<char>) -> bool;

/// What `serde_json::Value::get` with a string key finds in the parsed text,
/// as JSON text.
pub uninterp spec fn json_member_of(text: Seq<char>, key: Seq<char>) -> Option<Seq<char>>;

/// What `serde_json::Value::get` with an index finds in the parsed text, as
/// JSON text.
pub uninterp spec fn json_element_of(text: Seq<char>, index: nat) -> Option<Seq<char>>;

/// What `serde_json::Value::as_str` gives for the parsed text.
pub uninterp spec fn json_str_of(text: Seq<char>) -> Option<Seq<char>>;

/// What `serde_json::Value::as_i64` gives for the parsed text.
pub uninterp spec fn json_i64_of(text: Seq<char>) -> Option<i64>;

pub open spec fn opt_text(o: Option<String>) -> Option<Seq<char>> {
    match o {
        Some(s) => Some(s@),
        None => None,
    }
}

pub open spec fn member_of(o: Option<Seq<char>>, key: Seq<char>) -> Option<Seq<char>> {
    match o {
        Some(t) => json_member_of(t, key),
        None => None,
    }
}

pub open spec fn element_of(o: Option<Seq<char>>, index: nat) -> Option<Seq<char>> {
    match o {
        Some(t) => json_element_of(t, index),
        None => None,
    }
}

pub open spec fn str_of(o: Option<Seq<char>>) -> Option<Seq<char>> {
    match o {
        Some(t) => json_str_of(t),
        None => None,
    }
}

pub open spec fn i64_of(o: Option<Seq<char>>) -> Option<i64> {
    match o {
        Some(t) => json_i64_of(t),
        None => None,
    }
}

/// Relies on `serde_json::from_str::<Value>`: `Ok` exactly for well-formed
/// JSON text.
#[verifier::external_body]
pub(crate) fn is_json(text: &str) -> (r: bool)
    ensures
        r == json_valid(text@),
{
    serde_json::from_str::<serde_json::Value>(text).is_ok()
}

/// Relies on `serde_json::Value::get` with a string key: the member of that
/// name of an object, `None` for a missing member, a non-object or text
/// that is not JSON. The member is handed back as JSON text.
#[verifier::external_body]
pub(crate) fn json_member(text: &str, key: &str) -> (r: Option<String>)
    ensures
        opt_text(r) == json_member_of(text@, key@),
{
    serde_json::from_str::<serde_json::Value>(text).ok()?.get(key).map(|v| v.to_string())
}

/// Relies on `serde_json::Value::get` with an index: the element at that
/// index of an array, `None` when out of range, not an array or not JSON.
/// The element is handed back as JSON text.
#[verifier::external_body]
pub(crate) fn json_element(text: &str, index: usize) -> (r: Option<String>)
    ensures
        opt_text(r) == json_element_of(text@, index as nat),
{
    serde_json::from_str::<serde_json::Value>(text).ok()?.get(index).map(|v| v.to_string())
}

/// Relies on `serde_json::Value::as_str`: the contents of a JSON string,
/// `None` for any other value or text that is not JSON.
#[verifier::external_body]
pub(crate) fn json_str(text: &str) -> (r: Option<String>)
    ensures
        opt_text(r) == json_str_of(text@),
{
    serde_json::from_str::<serde_json::Value>(text).ok()?.as_str().map(|s| s.to_string())
}

/// Relies on `serde_json::Value::as_i64`: the value of a JSON integer that
/// fits in `i64`, `None` otherwise.
#[verifier::external_body]
pub(crate) fn json_i64(text: &str) -> (r: Option<i64>)
    ensures
        r == json_i64_of(text@),
{
    serde_json::from_str::<serde_json::Value>(text).ok()?.as_i64()
}

} // verus!

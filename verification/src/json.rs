//! Trusted reading of JSON-RPC text.
//!
//! serde_json does the reading.  Each extraction below is a function
//! of the text alone, so its result carries a name that contracts can
//! speak of: the names say nothing about which text yields which
//! value, only that equal texts yield equal values; the session's
//! tests run the real library against them.

use vstd::prelude::*;

verus! {

/// The top-level `method` field, where the text is JSON and the field
/// is a string.
pub uninterp spec fn method_of(text: Seq<char>) -> Option<Seq<char>>;

/// Relies on serde_json::from_str::<Value> and Value::{get, as_str}:
/// the top-level `method` string.
#[verifier::external_body]
pub(crate) fn json_method(text: &str) -> (r: Option<String>)
    ensures
        match r {
            Some(s) => method_of(text@) == Some(s@),
            None => method_of(text@) is None,
        },
{
    let v: serde_json::Value = serde_json::from_str(text).ok()?;
    Some(v.get("method")?.as_str()?.to_string())
}

/// The top-level `id` field, where it is an unsigned integer.
pub uninterp spec fn id_of(text: Seq<char>) -> Option<u64>;

/// Relies on serde_json::from_str::<Value> and Value::{get, as_u64}:
/// the top-level `id` number.
#[verifier::external_body]
pub(crate) fn json_id(text: &str) -> (r: Option<u64>)
    ensures
        r == id_of(text@),
{
    let v: serde_json::Value = serde_json::from_str(text).ok()?;
    v.get("id")?.as_u64()
}

/// Whether the text is JSON with a top-level `result` field.
pub uninterp spec fn has_result_of(text: Seq<char>) -> bool;

/// Relies on serde_json::from_str::<Value> and Value::get: whether a
/// `result` field exists.
#[verifier::external_body]
pub(crate) fn json_has_result(text: &str) -> (r: bool)
    ensures
        r == has_result_of(text@),
{
    match serde_json::from_str::<serde_json::Value>(text) {
        Ok(v) => v.get("result").is_some(),
        Err(_) => false,
    }
}

/// The top-level `result` field, where it is a string.
pub uninterp spec fn result_str_of(text: Seq<char>) -> Option<Seq<char>>;

/// Relies on serde_json::from_str::<Value> and Value::{get, as_str}:
/// the `result` string.
#[verifier::external_body]
pub(crate) fn json_result_str(text: &str) -> (r: Option<String>)
    ensures
        match r {
            Some(s) => result_str_of(text@) == Some(s@),
            None => result_str_of(text@) is None,
        },
{
    let v: serde_json::Value = serde_json::from_str(text).ok()?;
    Some(v.get("result")?.as_str()?.to_string())
}

/// A string member of the top-level `result` object.
pub uninterp spec fn result_field_str_of(text: Seq<char>, key: Seq<char>) -> Option<Seq<char>>;

/// Relies on serde_json::from_str::<Value> and Value::{get, as_str}:
/// the string under `result.<key>`.
#[verifier::external_body]
pub(crate) fn json_result_field_str(text: &str, key: &str) -> (r: Option<String>)
    ensures
        match r {
            Some(s) => result_field_str_of(text@, key@) == Some(s@),
            None => result_field_str_of(text@, key@) is None,
        },
{
    let v: serde_json::Value = serde_json::from_str(text).ok()?;
    Some(v.get("result")?.get(key)?.as_str()?.to_string())
}

/// The length of the `result.transactions` array, where it exists.
pub uninterp spec fn result_txs_of(text: Seq<char>) -> Option<usize>;

/// Relies on serde_json::from_str::<Value> and Value::{get, as_array}:
/// how many entries `result.transactions` holds.
#[verifier::external_body]
pub(crate) fn json_result_txs(text: &str) -> (r: Option<usize>)
    ensures
        r == result_txs_of(text@),
{
    let v: serde_json::Value = serde_json::from_str(text).ok()?;
    Some(v.get("result")?.get("transactions")?.as_array()?.len())
}

/// A string member of the `params.result` object of a notification.
pub uninterp spec fn notify_field_str_of(text: Seq<char>, key: Seq<char>) -> Option<Seq<char>>;

/// Relies on serde_json::from_str::<Value> and Value::{get, as_str}:
/// the string under `params.result.<key>`.
#[verifier::external_body]
pub(crate) fn json_notify_field_str(text: &str, key: &str) -> (r: Option<String>)
    ensures
        match r {
            Some(s) => notify_field_str_of(text@, key@) == Some(s@),
            None => notify_field_str_of(text@, key@) is None,
        },
{
    let v: serde_json::Value = serde_json::from_str(text).ok()?;
    Some(v.get("params")?.get("result")?.get(key)?.as_str()?.to_string())
}

} // verus!

//! Reading single fields of JSON objects, through `serde_json`.
//!
//! The JSON grammar is not restated here: what a read returns is named, and the code that
//! uses a field takes it as an argument.
use vstd::prelude::*;
use vstd::string::*;

verus! {

/// Name for reading string field `key` of the JSON text `text`: `None` when the text is not
/// JSON, `Some(None)` when the field is missing or not a string, `Some(Some(v))` otherwise.
pub uninterp spec fn json_str_field(text: Seq<char>, key: Seq<char>) -> Option<Option<Seq<char>>>;

/// Name for reading integer field `key` of the JSON text `text`: `None` when the text is not
/// JSON, `Some(None)` when the field is missing or not an integer that fits `i64`.
pub uninterp spec fn json_int_field(text: Seq<char>, key: Seq<char>) -> Option<Option<i64>>;

/// Parses `text` with `serde_json::from_str::<serde_json::Value>` and reads the string
/// field `key` (`Value::get`, then `Value::as_str`). The result is named by `json_str_field`.
#[verifier::external_body]
pub(crate) fn json_get_str(text: &str, key: &str) -> (r: Option<Option<String>>)
    ensures
        match r {
            None => json_str_field(text@, key@) is None,
            Some(None) => json_str_field(text@, key@) == Some(None::<Seq<char>>),
            Some(Some(v)) => json_str_field(text@, key@) == Some(Some(v@)),
        },
{
    match serde_json::from_str::<serde_json::Value>(text) {
        Ok(v) => Some(v.get(key).and_then(|x| x.as_str()).map(|s| s.to_string())),
        Err(_) => None,
    }
}

/// Parses `text` with `serde_json::from_str::<serde_json::Value>` and reads the integer
/// field `key` (`Value::get`, then `Value::as_i64`). The result is named by `json_int_field`.
#[verifier::external_body]
pub(crate) fn json_get_i64(text: &str, key: &str) -> (r: Option<Option<i64>>)
    ensures
        r == json_int_field(text@, key@),
{
    match serde_json::from_str::<serde_json::Value>(text) {
        Ok(v) => Some(v.get(key).and_then(|x| x.as_i64())),
        Err(_) => None,
    }
}

} // verus!

//! Reading one field out of a JSON document, through `serde_json`.
use vstd::prelude::*;

verus! {

/// The string that `serde_json` finds under `key` in the JSON text `text`:
/// `None` when the text does not parse, is not an object, has no such key or
/// holds something other than a string there.
pub uninterp spec fn json_string_field(text: Seq<char>, key: Seq<char>) -> Option<Seq<char>>;

/// The characters of an optional string.
pub open spec fn opt_string_view(o: Option<String>) -> Option<Seq<char>> {
    match o {
        Some(s) => Some(s@),
        None => None,
    }
}

/// Parses `text` with `serde_json::from_str` into a `serde_json::Value` and
/// takes the string under `key` (`Value::get`, then the `String` variant).
/// The contract names the result; it depends on the two arguments alone.
#[verifier::external_body]
pub(crate) fn string_field(text: &str, key: &str) -> (r: Option<String>)
    ensures
        opt_string_view(r) == json_string_field(text@, key@),
{
    let value: serde_json::Value = match serde_json::from_str(text) {
        Ok(v) => v,
        Err(_) => return None,
    };
    match value.get(key) {
        Some(serde_json::Value::String(s)) => Some(s.clone()),
        _ => None,
    }
}

} // verus!

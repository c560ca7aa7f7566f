//! Where JSON text is read: a string member of a JSON object, and a JSON array
//! of strings.
use vstd::prelude::*;

verus! {

/// The string value of member `key` when `text` is one JSON object whose member
/// `key` is a JSON string; `None` for any other text.
pub uninterp spec fn json_string_member(text: Seq<char>, key: Seq<char>) -> Option<Seq<char>>;

/// Relies on `serde_json::from_str` (into a map from member names to JSON values):
/// the text is parsed as one JSON object, and its member `key` is handed back when
/// it is a string. The result depends on `text` and `key` alone.
#[verifier::external_body]
pub(crate) fn string_member(text: &str, key: &str) -> (r: Option<String>)
    ensures
        match r {
            Some(v) => json_string_member(text@, key@) == Some(v@),
            None => json_string_member(text@, key@) is None,
        },
{
    match serde_json::from_str::<std::collections::BTreeMap<String, serde_json::Value>>(text) {
        Ok(mut members) => match members.remove(key) {
            Some(serde_json::Value::String(v)) => Some(v),
            _ => None,
        },
        Err(_) => None,
    }
}

/// The strings of `text` when it is one JSON array of strings, in order;
/// `None` for any other text.
pub uninterp spec fn json_string_list(text: Seq<char>) -> Option<Seq<Seq<char>>>;

/// Relies on `serde_json::from_str` (into a `Vec<String>`): the text is parsed as
/// one JSON array whose items are all strings. The result depends on `text` alone.
#[verifier::external_body]
pub(crate) fn string_list(text: &str) -> (r: Option<Vec<String>>)
    ensures
        match r {
            Some(v) => json_string_list(text@) == Some(v@.map_values(|s: String| s@)),
            None => json_string_list(text@) is None,
        },
{
    serde_json::from_str::<Vec<String>>(text).ok()
}

} // verus!

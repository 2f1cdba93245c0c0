//! Reading members of the JSON payloads that messages carry as text.
use vstd::prelude::*;

verus! {

/// The string value of member `key` of the JSON document `text`, as
/// `serde_json` reads it: present when `text` parses as an object whose
/// member `key` is a string.
pub uninterp spec fn json_string_member(text: Seq<char>, key: Seq<char>) -> Option<Seq<char>>;

/// The compact JSON text of member `key` of the JSON document `text`, as
/// `serde_json` writes it back: present when `text` parses as an object
/// that has member `key`.
pub uninterp spec fn json_member(text: Seq<char>, key: Seq<char>) -> Option<Seq<char>>;

/// Calls `serde_json::from_str::<serde_json::Value>` on `text`, then `get`
/// and `as_str` for member `key`.
#[verifier::external_body]
pub(crate) fn string_member(text: &str, key: &str) -> (r: Option<String>)
    ensures
        r matches Some(s) ==> json_string_member(text@, key@) == Some(s@),
        r is None ==> json_string_member(text@, key@) is None,
{
    match serde_json::from_str::<serde_json::Value>(text) {
        Ok(v) => v.get(key).and_then(|m| m.as_str()).map(|s| s.to_string()),
        Err(_) => None,
    }
}

/// Calls `serde_json::from_str::<serde_json::Value>` on `text`, then `get`
/// for member `key` and `to_string` on what it finds.
#[verifier::external_body]
pub(crate) fn member_text(text: &str, key: &str) -> (r: Option<String>)
    ensures
        r matches Some(s) ==> json_member(text@, key@) == Some(s@),
        r is None ==> json_member(text@, key@) is None,
{
    match serde_json::from_str::<serde_json::Value>(text) {
        Ok(v) => v.get(key).map(|m| m.to_string()),
        Err(_) => None,
    }
}

} // verus!

//! Trusted access to the JSON bodies the remote services answer with.
//! serde_json does the parsing; each extractor below walks a parsed body
//! to one member and hands its text on. What serde_json finds there is a
//! deterministic function of the body text alone, so each extractor's
//! result bears a name that contracts downstream can be stated over.

use vstd::prelude::*;

verus! {

/// The text of the string member under `results.<key>` of a JSON body:
/// `None` when the body is not JSON or holds no such string member. What
/// it is for a given body only [`results_string_member`] knows.
pub uninterp spec fn results_member_text(body: Seq<char>, key: Seq<char>) -> Option<Seq<char>>;

/// Relies on serde_json (`from_str`, `Value::get`, `Value::as_str`): the
/// string member under `results.<key>` of the JSON body, `None` when the
/// body is not JSON or no such string member exists. serde_json's parsing
/// is deterministic, so the result is a function of the body text alone,
/// named `results_member_text`.
#[verifier::external_body]
pub(crate) fn results_string_member(body: &str, key: &str) -> (r: Option<String>)
    ensures
        match r {
            Some(s) => results_member_text(body@, key@) == Some(s@),
            None => results_member_text(body@, key@) is None,
        },
{
    match serde_json::from_str::<serde_json::Value>(body) {
        Ok(value) => match value.get("results") {
            Some(results) => match results.get(key) {
                Some(member) => match member.as_str() {
                    Some(text) => Some(text.to_string()),
                    None => None,
                },
                None => None,
            },
            None => None,
        },
        Err(_) => None,
    }
}

/// The JSON text of the top-level member `key` of a JSON body: `None`
/// when the body is not JSON or holds no such member. What it is for a
/// given body only [`rendered_member`] knows.
pub uninterp spec fn member_render_text(body: Seq<char>, key: Seq<char>) -> Option<Seq<char>>;

/// Relies on serde_json (`from_str`, `Value::get`, `Value`'s `Display`):
/// the top-level member `key` of the JSON body rendered back to JSON text
/// — a finite number appears as plain decimal digits (possibly signed,
/// fractional, or in exponent notation for extreme magnitudes) — `None`
/// when the body is not JSON or has no such member. serde_json's parsing
/// and rendering are deterministic, so the result is a function of the
/// body text alone, named `member_render_text`.
#[verifier::external_body]
pub(crate) fn rendered_member(body: &str, key: &str) -> (r: Option<String>)
    ensures
        match r {
            Some(s) => member_render_text(body@, key@) == Some(s@),
            None => member_render_text(body@, key@) is None,
        },
{
    match serde_json::from_str::<serde_json::Value>(body) {
        Ok(value) => match value.get(key) {
            Some(member) => Some(member.to_string()),
            None => None,
        },
        Err(_) => None,
    }
}

} // verus!

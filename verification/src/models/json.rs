//! Column values stored as JSON text, decoded by `serde_json`.

use vstd::prelude::*;

verus! {

/// The integer that a JSON text holds, as `serde_json` decodes it.
pub uninterp spec fn json_i64(text: Seq<char>) -> Option<i64>;

/// The string that a JSON text holds, as `serde_json` decodes it.
pub uninterp spec fn json_string(text: Seq<char>) -> Option<Seq<char>>;

/// Decodes a JSON text into an `i64`.
///
/// Calls `serde_json::from_str::<i64>`; its result depends on the text alone
/// and is named [`json_i64`]: `None` where the text is not one JSON integer
/// that fits an `i64`.
#[verifier::external_body]
pub(crate) fn json_to_i64(text: &str) -> (r: Option<i64>)
    ensures
        r == json_i64(text@),
{
    serde_json::from_str::<i64>(text).ok()
}

/// Decodes a JSON text into a `String`.
///
/// Calls `serde_json::from_str::<String>`; its result depends on the text
/// alone and is named [`json_string`]: `None` where the text is not one JSON
/// string.
#[verifier::external_body]
pub(crate) fn json_to_string(text: &str) -> (r: Option<String>)
    ensures
        r matches Some(s) ==> json_string(text@) == Some(s@),
        r is None ==> json_string(text@) is None,
{
    serde_json::from_str::<String>(text).ok()
}

} // verus!

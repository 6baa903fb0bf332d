use vstd::prelude::*;

verus! {

/// A JSON value of serde_json, carried through unopened.
#[verifier::external_type_specification]
#[verifier::external_body]
pub struct ExJsonValue(serde_json::Value);

/// serde_json's error for text that is not JSON.
#[verifier::external_type_specification]
#[verifier::external_body]
pub struct ExJsonError(serde_json::Error);

/// The value that serde_json reads from a whole text, or `None` where the
/// text is not one JSON value.
pub uninterp spec fn json_parse(text: Seq<char>) -> Option<serde_json::Value>;

/// Relies on serde_json::from_str: it reads one JSON value from the whole
/// text (trailing whitespace only) or fails, and the outcome depends on the
/// text alone; no JSON value starts with `@`, so such a text fails.
#[verifier::external_body]
pub(crate) fn parse_json(text: &str) -> (r: Result<serde_json::Value, serde_json::Error>)
    ensures
        match r {
            Ok(v) => json_parse(text@) == Some(v),
            Err(_) => json_parse(text@) is None,
        },
        text@.len() > 0 && text@[0] == '@' ==> r is Err,
{
    serde_json::from_str(text)
}

} // verus!

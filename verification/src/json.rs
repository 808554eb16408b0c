//! JSON as `serde_json` reads it. The reading itself is not verified: this
//! module gives each result of the outside crate a name, and states of each
//! call only that its result is the named one.

use vstd::prelude::*;
use vstd::string::*;

verus! {

/// `serde_json::Value`, a JSON value of any shape. Nothing is known of what
/// is inside one but through the names below.
#[verifier::external_type_specification]
#[verifier::external_body]
pub struct ExJsonValue(serde_json::Value);

/// `serde_json::Error`, the reason why a text could not be read as JSON.
#[verifier::external_type_specification]
#[verifier::external_body]
pub struct ExJsonError(serde_json::Error);

/// What `serde_json::from_str` makes of `text`, read as one JSON value.
pub uninterp spec fn json_parsed(text: Seq<char>) -> Result<serde_json::Value, serde_json::Error>;

/// What the `Display` of a `serde_json::Error` writes.
pub uninterp spec fn json_error_text(error: serde_json::Error) -> Seq<char>;

/// What `serde_json::Value::get` finds in `value` under the string `key`.
pub uninterp spec fn json_member(value: serde_json::Value, key: Seq<char>) -> Option<
    serde_json::Value,
>;

/// What `serde_json::Value::as_str` finds in `value`.
pub uninterp spec fn json_string(value: serde_json::Value) -> Option<Seq<char>>;

/// What the `Display` of the number writes, where `value` is a JSON number.
pub uninterp spec fn json_number(value: serde_json::Value) -> Option<Seq<char>>;

/// `serde_json::from_str` at the type `serde_json::Value`: reads `text` as one
/// JSON value. Claimed: the result depends on `text` alone.
#[verifier::external_body]
pub(crate) fn parse(text: &str) -> (r: Result<serde_json::Value, serde_json::Error>)
    ensures
        r == json_parsed(text@),
{
    serde_json::from_str::<serde_json::Value>(text)
}

/// The `Display` of `serde_json::Error`, through `to_string`. Claimed: the
/// text depends on the error alone.
#[verifier::external_body]
pub(crate) fn error_text(error: &serde_json::Error) -> (s: String)
    ensures
        s@ == json_error_text(*error),
{
    error.to_string()
}

/// `serde_json::Value::get` with a string for its index: the member of that
/// name where `value` is an object that has one. Claimed: the result depends
/// on `value` and `key` alone.
#[verifier::external_body]
pub(crate) fn member<'a>(value: &'a serde_json::Value, key: &str) -> (r: Option<
    &'a serde_json::Value,
>)
    ensures
        match r {
            Some(found) => json_member(*value, key@) == Some(*found),
            None => json_member(*value, key@) is None,
        },
{
    value.get(key)
}

/// `serde_json::Value::as_str`: the text where `value` is a JSON string.
/// Claimed: the result depends on `value` alone.
pub assume_specification[ serde_json::Value::as_str ](value: &serde_json::Value) -> (r: Option<
    &str,
>)
    ensures
        match r {
            Some(text) => json_string(*value) == Some(text@),
            None => json_string(*value) is None,
        },
;

/// The `Display` of `serde_json::Number`, through `to_string`, where `value`
/// is a JSON number. Claimed: the result depends on `value` alone.
#[verifier::external_body]
pub(crate) fn number_text(value: &serde_json::Value) -> (r: Option<String>)
    ensures
        match r {
            Some(text) => json_number(*value) == Some(text@),
            None => json_number(*value) is None,
        },
{
    match value {
        serde_json::Value::Number(n) => Some(n.to_string()),
        serde_json::Value::Null => None,
        serde_json::Value::Bool(_) => None,
        serde_json::Value::String(_) => None,
        serde_json::Value::Array(_) => None,
        serde_json::Value::Object(_) => None,
    }
}

} // verus!

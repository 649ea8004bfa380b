//! The JSON values that a feature carries, and their text.
//!
//! The values are those of `serde_json` and are carried through as they
//! are; only their serialised text is spoken of.

use vstd::prelude::*;

verus! {

/// Any JSON value, `serde_json::Value`: carried through, never looked into.
#[verifier::external_type_specification]
#[verifier::external_body]
pub struct ExJsonValue(serde_json::Value);

/// A JSON number, `serde_json::Number`: carried through, never looked into.
#[verifier::external_type_specification]
#[verifier::external_body]
pub struct ExJsonNumber(serde_json::Number);

/// A JSON object, `serde_json::Map`: carried through, never looked into.
#[verifier::external_type_specification]
#[verifier::external_body]
#[verifier::reject_recursive_types(K)]
#[verifier::reject_recursive_types(V)]
pub struct ExJsonMap<K, V>(serde_json::Map<K, V>);

/// The error of `serde_json`: carried through, never looked into.
#[verifier::external_type_specification]
#[verifier::external_body]
pub struct ExJsonError(serde_json::Error);

/// The text that `serde_json` writes for a number.
pub uninterp spec fn number_text(n: serde_json::Number) -> Seq<char>;

/// The compact JSON text that `serde_json` writes for a bag of properties,
/// or `None` where its serialiser fails on the bag.
pub uninterp spec fn properties_text(
    properties: Option<serde_json::Map<String, serde_json::Value>>,
) -> Option<Seq<char>>;

/// The text of a JSON number, by `serde_json::Number`'s `to_string`: the
/// same number always gives the same text.
#[verifier::external_body]
pub(crate) fn number_to_string(n: &serde_json::Number) -> (s: String)
    ensures
        s@ == number_text(*n),
{
    n.to_string()
}

/// The JSON text of a bag of properties, by `serde_json::to_string`. The
/// call computes from the bag alone, so the same bag always gives the same
/// text, or always fails. Nothing is claimed about which bags fail, nor
/// about the text.
#[verifier::external_body]
pub(crate) fn properties_to_string(
    properties: &Option<serde_json::Map<String, serde_json::Value>>,
) -> (r: Result<String, serde_json::Error>)
    ensures
        match r {
            Ok(s) => properties_text(*properties) == Some(s@),
            Err(_) => properties_text(*properties) is None,
        },
{
    serde_json::to_string(properties)
}

/// The JSON value that `serde_json` reads from a text, or `None` where the
/// text is not JSON.
pub uninterp spec fn parsed_json(text: Seq<char>) -> Option<serde_json::Value>;

/// Reads a text as JSON, by `serde_json::from_str`. The call computes from
/// the text alone, so the same text always gives the same value, or always
/// fails. Nothing is claimed about which texts fail, nor about the value.
#[verifier::external_body]
pub(crate) fn parse_json(text: &str) -> (r: Result<serde_json::Value, serde_json::Error>)
    ensures
        match r {
            Ok(value) => parsed_json(text@) == Some(value),
            Err(_) => parsed_json(text@) is None,
        },
{
    serde_json::from_str(text)
}

} // verus!

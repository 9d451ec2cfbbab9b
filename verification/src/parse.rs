//! Parsing text into the generic tree value.

use vstd::prelude::*;
use crate::tree::{Json, depth};

verus! {

/// Failure to parse text as a generic tree document; carries the parser's own
/// diagnostic message, passed through unchanged.
#[derive(Debug)]
pub struct ParseError {
    pub message: String,
}

#[verifier::external_type_specification]
#[verifier::external_body]
pub struct ExValue(serde_json::Value);

/// The tree value that the parser yields for the given text, or `None` where
/// the text is not a single well-formed document.
pub uninterp spec fn parsed_json(text: Seq<char>) -> Option<Json>;

/// Relies on serde_json::from_str::<serde_json::Value>: the parse is a
/// function of the text alone, it fails exactly on text that is not a single
/// well-formed JSON document, and it refuses documents whose containers nest
/// beyond its recursion limit of 128, so a returned tree has depth at most
/// 128. On failure the parser's diagnostic is passed on as its display text.
#[verifier::external_body]
pub(crate) fn parse_json(text: &str) -> (r: Result<Json, String>)
    ensures
        match r {
            Ok(t) => parsed_json(text@) == Some(t) && depth(t) <= 128,
            Err(_) => parsed_json(text@) is None,
        },
{
    match serde_json::from_str::<serde_json::Value>(text) {
        Ok(v) => Ok(from_value(&v)),
        Err(e) => Err(e.to_string()),
    }
}

/// Relies on serde_json::Value only as a carrier of parsed data: each variant
/// is moved field by field into the tree type of this crate, numbers and
/// other non-string scalars through their canonical display text.
#[verifier::external_body]
fn from_value(v: &serde_json::Value) -> Json {
    match v {
        serde_json::Value::Null => Json::Null,
        serde_json::Value::Bool(b) => Json::Bool(*b),
        serde_json::Value::Number(n) => Json::Number(n.to_string()),
        serde_json::Value::String(s) => Json::Text(s.clone()),
        serde_json::Value::Array(a) => Json::Array(a.iter().map(from_value).collect()),
        serde_json::Value::Object(m) => Json::Object(
            m.iter().map(|(k, val)| (k.clone(), from_value(val))).collect(),
        ),
    }
}

} // verus!

use vstd::prelude::*;
use crate::json_wire::JsonNode;
use crate::manifest::TomlNode;

verus! {

#[verifier::external_type_specification]
#[verifier::external_body]
pub struct ExTomlValue(toml::Value);

#[verifier::external_type_specification]
#[verifier::external_body]
pub struct ExJsonValue(serde_json::Value);

/// The tree that the `toml` crate reads from a TOML document, or none where
/// it refuses the text.
pub uninterp spec fn parsed_toml(text: Seq<char>) -> Option<TomlNode>;

/// The value that `serde_json` reads from a JSON text, or none where it
/// refuses the text.
pub uninterp spec fn parsed_json(text: Seq<char>) -> Option<JsonNode>;

/// Converts a `toml::Value`, one variant for one: strings, booleans,
/// arrays and tables carry over, every other value becomes `Other`.
#[verifier::external_body]
fn toml_value_node(v: &toml::Value) -> TomlNode {
    match v {
        toml::Value::String(s) => TomlNode::Str(s.clone()),
        toml::Value::Boolean(b) => TomlNode::Bool(*b),
        toml::Value::Array(a) => TomlNode::Array(a.iter().map(toml_value_node).collect()),
        toml::Value::Table(t) => TomlNode::Table(
            t.iter().map(|(k, x)| (k.clone(), toml_value_node(x))).collect(),
        ),
        _ => TomlNode::Other,
    }
}

/// Parses a TOML document with `toml::from_str` into a `toml::Value` and
/// converts it. What is claimed: the result depends on the text alone; it
/// is named `parsed_toml`, and none stands for a refused document.
#[verifier::external_body]
pub(crate) fn parse_toml_document(text: &str) -> (r: Option<TomlNode>)
    ensures
        r == parsed_toml(text@),
{
    match toml::from_str::<toml::Value>(text) {
        Ok(v) => Some(toml_value_node(&v)),
        Err(_) => None,
    }
}

/// Converts a `serde_json::Value`, one variant for one; a number keeps the
/// text that `serde_json` prints for it.
#[verifier::external_body]
fn json_value_node(v: &serde_json::Value) -> JsonNode {
    match v {
        serde_json::Value::Null => JsonNode::Null,
        serde_json::Value::Bool(b) => JsonNode::Bool(*b),
        serde_json::Value::Number(n) => JsonNode::Number(n.to_string()),
        serde_json::Value::String(s) => JsonNode::Str(s.clone()),
        serde_json::Value::Array(a) => JsonNode::Array(a.iter().map(json_value_node).collect()),
        serde_json::Value::Object(m) => JsonNode::Object(
            m.iter().map(|(k, x)| (k.clone(), json_value_node(x))).collect(),
        ),
    }
}

/// Parses a JSON text with `serde_json::from_str` into a
/// `serde_json::Value` and converts it. What is claimed: the result depends
/// on the text alone; it is named `parsed_json`, and none stands for a
/// refused text.
#[verifier::external_body]
pub(crate) fn parse_json_value(text: &str) -> (r: Option<JsonNode>)
    ensures
        r == parsed_json(text@),
{
    match serde_json::from_str::<serde_json::Value>(text) {
        Ok(v) => Some(json_value_node(&v)),
        Err(_) => None,
    }
}

} // verus!

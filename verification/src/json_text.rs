use vstd::prelude::*;
use crate::json::{Json, JsonView};

verus! {

/// `serde_json`'s value type, carried through the conversions below.
#[verifier::external_type_specification]
#[verifier::external_body]
pub struct ExJsonValue(serde_json::Value);

/// Whether `serde_json::from_str` accepts the text as a JSON value. It
/// depends on the text alone; which texts it accepts is left unstated.
pub uninterp spec fn json_text_parses(text: Seq<char>) -> bool;

/// What `serde_json::from_str::<serde_json::Value>` gives for a text, as the
/// library's value; `None` where it refuses the text.
pub uninterp spec fn parsed_json(text: Seq<char>) -> Option<JsonView>;

/// The text `serde_json::to_string_pretty` writes for a value (two spaces of
/// indentation per level), once the value is turned into a `serde_json` one.
pub uninterp spec fn formatted_json(value: JsonView) -> Seq<char>;

/// Turns a `serde_json` value into the library's value, variant by variant: a
/// number as its text, an object's members in the order its map yields them.
#[verifier::external_body]
fn json_of_value(value: serde_json::Value) -> Json {
    match value {
        serde_json::Value::Null => Json::Null,
        serde_json::Value::Bool(b) => Json::Bool(b),
        serde_json::Value::Number(n) => Json::Number(n.to_string()),
        serde_json::Value::String(s) => Json::Str(s),
        serde_json::Value::Array(items) => Json::Array(items.into_iter().map(json_of_value).collect()),
        serde_json::Value::Object(map) => Json::Object(map.into_iter().map(|(k, v)| (k, json_of_value(v))).collect()),
    }
}

/// Turns the library's value into a `serde_json` value, variant by variant:
/// number text and raw JSON text are parsed by `serde_json::from_str` (text
/// that does not parse is kept as a string), object members are inserted in
/// order.
#[verifier::external_body]
fn value_of_json(json: Json) -> serde_json::Value {
    match json {
        Json::Null => serde_json::Value::Null,
        Json::Bool(b) => serde_json::Value::Bool(b),
        Json::Number(t) => serde_json::from_str(&t).unwrap_or(serde_json::Value::String(t)),
        Json::Str(s) => serde_json::Value::String(s),
        Json::Array(items) => serde_json::Value::Array(items.into_iter().map(value_of_json).collect()),
        Json::Object(es) => serde_json::Value::Object(es.into_iter().map(|(k, v)| (k, value_of_json(v))).collect()),
        Json::Raw(t) => serde_json::from_str(&t).unwrap_or(serde_json::Value::String(t)),
    }
}

/// Parses a text with `serde_json::from_str::<serde_json::Value>`. The
/// contract names what comes back: whether the text parses
/// (`json_text_parses`) and, if it does, the value (`parsed_json`); otherwise
/// the error's message, which is left unstated.
#[verifier::external_body]
pub fn parse_json(text: &str) -> (r: Result<Json, String>)
    ensures
        (r is Ok) == json_text_parses(text@),
        r matches Ok(v) ==> parsed_json(text@) == Some(v@),
        r is Err ==> parsed_json(text@) is None,
{
    match serde_json::from_str::<serde_json::Value>(text) {
        Ok(value) => Ok(json_of_value(value)),
        Err(e) => Err(e.to_string()),
    }
}

/// Writes a value with `serde_json::to_string_pretty` (`[]` should it ever
/// fail, as the original tool did); the contract names the text
/// (`formatted_json`), a function of the value alone.
#[verifier::external_body]
pub fn format_json(value: Json) -> (r: String)
    ensures
        r@ == formatted_json(value@),
{
    serde_json::to_string_pretty(&value_of_json(value)).unwrap_or_else(|_| String::from("[]"))
}

} // verus!

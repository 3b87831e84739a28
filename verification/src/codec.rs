//! The serde_json boundary: parsing JSON text into the library's tree and
//! serializing the tree back to text.
//!
//! Both directions go through serde_json, whose results are named by the
//! uninterpreted functions below: parsing and serializing are functions of
//! their input alone.

use vstd::prelude::*;

use crate::json::JsonModel;
use crate::json::JsonValue;
use crate::json::wf_model;

verus! {

#[verifier::external_type_specification]
#[verifier::external_body]
pub struct ExValue(serde_json::Value);

/// What serde_json::from_str returns on a text: the parsed tree, or the
/// parse error's message.
pub uninterp spec fn spec_parse(s: Seq<char>) -> Result<JsonModel, Seq<char>>;

/// What serde_json::to_string_pretty prints for a value.
pub uninterp spec fn spec_pretty(m: JsonModel) -> Seq<char>;

/// What serde_json::to_string prints for a value.
pub uninterp spec fn spec_compact(m: JsonModel) -> Seq<char>;

/// Conversion arm shared by the trusted wrappers of this crate: rebuilds the
/// library's tree from serde_json's.  Only called from inside trusted bodies.
#[verifier::external_body]
fn of_serde(v: serde_json::Value) -> JsonValue {
    match v {
        serde_json::Value::Null => JsonValue::Null,
        serde_json::Value::Bool(b) => JsonValue::Bool(b),
        serde_json::Value::Number(n) => JsonValue::Number(n),
        serde_json::Value::String(s) => JsonValue::Text(s),
        serde_json::Value::Array(items) => JsonValue::Array(
            items.into_iter().map(of_serde).collect(),
        ),
        serde_json::Value::Object(entries) => JsonValue::Object(
            entries.into_iter().map(|(k, x)| (k, of_serde(x))).collect(),
        ),
    }
}

/// Conversion arm shared by the trusted wrappers of this crate and of the
/// validator and renderer: rebuilds serde_json's tree from the library's.
/// Only called from inside trusted bodies.
#[verifier::external_body]
pub(crate) fn to_serde(v: &JsonValue) -> serde_json::Value {
    match v {
        JsonValue::Null => serde_json::Value::Null,
        JsonValue::Bool(b) => serde_json::Value::Bool(*b),
        JsonValue::Number(n) => serde_json::Value::Number(n.clone()),
        JsonValue::Text(s) => serde_json::Value::String(s.clone()),
        JsonValue::Array(items) => serde_json::Value::Array(items.iter().map(to_serde).collect()),
        JsonValue::Object(entries) => serde_json::Value::Object(
            entries.iter().map(|(k, x)| (k.clone(), to_serde(x))).collect(),
        ),
    }
}

/// Relies on serde_json::from_str::<serde_json::Value>: the result is a
/// function of the text alone, and a parsed object never repeats a key
/// (serde_json's map keeps one value per key, the last one written).
#[verifier::external_body]
pub(crate) fn parse_json(s: &str) -> (r: Result<JsonValue, String>)
    ensures
        r is Ok <==> spec_parse(s@) is Ok,
        r is Ok ==> r->Ok_0@ == spec_parse(s@)->Ok_0 && wf_model(r->Ok_0@),
        r is Err ==> r->Err_0@ == spec_parse(s@)->Err_0,
{
    match serde_json::from_str::<serde_json::Value>(s) {
        Ok(v) => Ok(of_serde(v)),
        Err(e) => Err(e.to_string()),
    }
}

/// Relies on serde_json::to_string_pretty, which never fails on a plain JSON
/// value: the printed text is a function of the value alone.
#[verifier::external_body]
pub(crate) fn to_pretty(v: &JsonValue) -> (r: String)
    ensures
        r@ == spec_pretty(v@),
{
    serde_json::to_string_pretty(&to_serde(v)).unwrap_or(String::new())
}

/// Relies on serde_json::to_string, which never fails on a plain JSON value:
/// the printed text is a function of the value alone.
#[verifier::external_body]
pub(crate) fn to_compact(v: &JsonValue) -> (r: String)
    ensures
        r@ == spec_compact(v@),
{
    serde_json::to_string(&to_serde(v)).unwrap_or(String::new())
}

} // verus!

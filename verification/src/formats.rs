use vstd::prelude::*;
use crate::config::{Cfg, ConfigValue};
use crate::pr::JsonValue;
use toml::Value as Toml;
use serde_json::Value as Json;

verus! {

#[verifier::external_type_specification]
#[verifier::external_body]
pub struct ExTomlValue(toml::Value);

#[verifier::external_type_specification]
#[verifier::external_body]
pub struct ExJsonValue(serde_json::Value);

/// What `toml` reads from a document: its value (a table for any valid document), or the
/// text of the error it reports.
pub uninterp spec fn toml_document(text: Seq<char>) -> Result<Cfg, Seq<char>>;

/// The TOML document `toml::to_string_pretty` writes for a value (empty when it cannot).
pub uninterp spec fn toml_render(v: Cfg) -> Seq<char>;

/// The inline TOML text of a value, as `toml::Value` displays it.
pub uninterp spec fn toml_inline(v: Cfg) -> Seq<char>;

/// What `serde_json` reads from a text, when it is JSON.
pub uninterp spec fn json_document(text: Seq<char>) -> Option<JsonValue>;

/// A `toml::Value` as a configuration value: floats and dates keep their TOML text.
#[verifier::external_body]
fn from_toml(v: &Toml) -> ConfigValue {
    match v {
        Toml::String(s) => ConfigValue::Str(s.clone()),
        Toml::Integer(n) => ConfigValue::Int(*n),
        Toml::Boolean(b) => ConfigValue::Bool(*b),
        Toml::Array(items) => ConfigValue::Array(items.iter().map(from_toml).collect()),
        Toml::Table(t) => ConfigValue::Table(t.iter().map(|(k, v)| (k.clone(), from_toml(v))).collect()),
        other => ConfigValue::Other(other.to_string()),
    }
}

/// A configuration value as a `toml::Value`; the kept text of a float or date is read
/// back as TOML.
#[verifier::external_body]
fn to_toml(v: &ConfigValue) -> Toml {
    match v {
        ConfigValue::Str(s) => Toml::String(s.clone()),
        ConfigValue::Int(n) => Toml::Integer(*n),
        ConfigValue::Bool(b) => Toml::Boolean(*b),
        ConfigValue::Array(items) => Toml::Array(items.iter().map(to_toml).collect()),
        ConfigValue::Table(es) => Toml::Table(es.iter().map(|(k, v)| (k.clone(), to_toml(v))).collect()),
        ConfigValue::Other(text) => format!("v = {text}").parse::<toml::Table>().ok()
            .and_then(|mut t| t.remove("v")).unwrap_or_else(|| Toml::String(text.clone())),
    }
}

/// A `serde_json::Value` as the library holds JSON: integers that fit `i64`, other
/// numbers only marked.
#[verifier::external_body]
fn from_json(v: &Json) -> JsonValue {
    match v {
        Json::Null => JsonValue::Null,
        Json::Bool(b) => JsonValue::Bool(*b),
        Json::Number(n) => match n.as_i64() { Some(i) => JsonValue::Int(i), None => JsonValue::OtherNumber },
        Json::String(s) => JsonValue::Str(s.clone()),
        Json::Array(items) => JsonValue::Array(items.iter().map(from_json).collect()),
        Json::Object(m) => JsonValue::Object(m.iter().map(|(k, v)| (k.clone(), from_json(v))).collect()),
    }
}

/// `text.parse::<toml::Value>()`: the document's value, or the error's text. The result is
/// claimed to be named `toml_document` of the text.
#[verifier::external_body]
pub(crate) fn read_toml_document(text: &str) -> (r: Result<ConfigValue, String>)
    ensures
        match r {
            Ok(v) => toml_document(text@) == Ok::<Cfg, Seq<char>>(v@),
            Err(e) => toml_document(text@) == Err::<Cfg, Seq<char>>(e@),
        },
{
    match text.parse::<Toml>() {
        Ok(v) => Ok(from_toml(&v)),
        Err(e) => Err(e.to_string()),
    }
}

/// `toml::to_string_pretty`, or nothing when it fails: claimed to be named `toml_render`.
#[verifier::external_body]
fn write_toml_document(v: &ConfigValue) -> (r: String)
    ensures
        r@ == toml_render(v@),
{
    toml::to_string_pretty(&to_toml(v)).unwrap_or_default()
}

/// `toml::Value`'s display: claimed to be named `toml_inline`.
#[verifier::external_body]
pub(crate) fn write_toml_inline(v: &ConfigValue) -> (r: String)
    ensures
        r@ == toml_inline(v@),
{
    to_toml(v).to_string()
}

/// `serde_json::from_str::<serde_json::Value>`: claimed to be named `json_document`.
#[verifier::external_body]
pub(crate) fn read_json_document(text: &str) -> (r: Option<JsonValue>)
    ensures
        r == json_document(text@),
{
    serde_json::from_str::<Json>(text).ok().map(|v| from_json(&v))
}

/// The value a TOML document holds, when it reads.
pub open spec fn toml_value(text: Seq<char>) -> Option<Cfg> {
    match toml_document(text) {
        Ok(v) => Some(v),
        Err(_) => None,
    }
}

/// Reads a TOML document: its value, or nothing when it does not read.
pub fn parse_toml(text: &str) -> (r: Option<ConfigValue>)
    ensures
        match r {
            Some(v) => toml_value(text@) == Some(v@),
            None => toml_value(text@) is None,
        },
{
    match read_toml_document(text) {
        Ok(v) => Some(v),
        Err(_) => None,
    }
}

/// The text of a value as a TOML document.
pub fn render_toml(v: &ConfigValue) -> (r: String)
    ensures
        r@ == toml_render(v@),
{
    write_toml_document(v)
}

/// Reads JSON: its value, or nothing when the text is not JSON.
pub fn parse_json(text: &str) -> (r: Option<JsonValue>)
    ensures
        r == json_document(text@),
{
    read_json_document(text)
}

} // verus!

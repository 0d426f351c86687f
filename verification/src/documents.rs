//! Parsed JSON and TOML documents, as far as the tool reads them: text
//! values, arrays, and maps from keys to values.  Parsing is done by
//! `serde_json` and `toml`; what a parse yields is named, and each accessor
//! states what it reads out of a value.

use vstd::prelude::*;

verus! {

// ── JSON ─────────────────────────────────────────────────────────────────────

/// The shape of a JSON value: a string, an array, an object, or anything
/// else (null, a boolean or a number).
pub enum JsonView {
    Str(Seq<char>),
    Array(Seq<JsonView>),
    Object(Map<Seq<char>, JsonView>),
    Other,
}

#[verifier::external_type_specification]
#[verifier::external_body]
pub struct ExJsonValue(serde_json::Value);

/// The shape of a parsed `serde_json::Value`.
pub uninterp spec fn json_view(v: serde_json::Value) -> JsonView;

/// The value `serde_json::from_str` parses out of `text`, or `None` when it
/// rejects the text.
pub uninterp spec fn json_parse(text: Seq<char>) -> Option<JsonView>;

/// `serde_json::from_str::<serde_json::Value>`: the parsed value exactly
/// when the text is a JSON document; its shape is `json_parse(text)`.
#[verifier::external_body]
pub(crate) fn parse_json(text: &str) -> (r: Option<serde_json::Value>)
    ensures
        r is Some <==> json_parse(text@) is Some,
        r matches Some(v) ==> json_parse(text@) == Some(json_view(v)),
{
    serde_json::from_str::<serde_json::Value>(text).ok()
}

/// `serde_json::Value::get` with a string key: the member of an object
/// under `key`; `None` for a missing key or a value that is not an object.
#[verifier::external_body]
pub(crate) fn json_get<'a>(v: &'a serde_json::Value, key: &str) -> (r: Option<&'a serde_json::Value>)
    ensures
        r is Some <==> (json_view(*v) matches JsonView::Object(m) && m.dom().contains(key@)),
        r matches Some(x) ==> (json_view(*v) matches JsonView::Object(m) && json_view(*x)
            == m[key@]),
{
    v.get(key)
}

/// `serde_json::Value::as_array`: the elements of an array, in order.
#[verifier::external_body]
pub(crate) fn json_items<'a>(v: &'a serde_json::Value) -> (r: Option<&'a Vec<serde_json::Value>>)
    ensures
        r is Some <==> json_view(*v) is Array,
        r matches Some(a) ==> (json_view(*v) matches JsonView::Array(s) && a@.map_values(
            |x: serde_json::Value| json_view(x),
        ) == s),
{
    v.as_array()
}

/// `serde_json::Value::as_str`: the text of a string.
#[verifier::external_body]
pub(crate) fn json_text<'a>(v: &'a serde_json::Value) -> (r: Option<&'a str>)
    ensures
        r is Some <==> json_view(*v) is Str,
        r matches Some(t) ==> (json_view(*v) matches JsonView::Str(s) && t@ == s),
{
    v.as_str()
}

// ── TOML ─────────────────────────────────────────────────────────────────────

/// The shape of a TOML value: a string, an array, a table, or anything else
/// (a number, a boolean or a date).
pub enum TomlView {
    Str(Seq<char>),
    Array(Seq<TomlView>),
    Table(Map<Seq<char>, TomlView>),
    Other,
}

#[verifier::external_type_specification]
#[verifier::external_body]
pub struct ExTomlValue(toml::Value);

/// The shape of a parsed `toml::Value`.
pub uninterp spec fn toml_view(v: toml::Value) -> TomlView;

/// The value `toml::Value::from_str` parses out of `text`, or `None` when
/// it rejects the text.
pub uninterp spec fn toml_parse(text: Seq<char>) -> Option<TomlView>;

/// `str::parse::<toml::Value>` (`toml::from_str`): the parsed document
/// exactly when the text is TOML; its shape is `toml_parse(text)`.
#[verifier::external_body]
pub(crate) fn parse_toml(text: &str) -> (r: Option<toml::Value>)
    ensures
        r is Some <==> toml_parse(text@) is Some,
        r matches Some(v) ==> toml_parse(text@) == Some(toml_view(v)),
{
    text.parse::<toml::Value>().ok()
}

/// `toml::Value::is_table`.
#[verifier::external_body]
pub(crate) fn toml_is_table(v: &toml::Value) -> (b: bool)
    ensures
        b == (toml_view(*v) is Table),
{
    v.is_table()
}

/// `toml::Value::get` with a string key: the entry of a table under `key`;
/// `None` for a missing key or a value that is not a table.
#[verifier::external_body]
pub(crate) fn toml_get<'a>(v: &'a toml::Value, key: &str) -> (r: Option<&'a toml::Value>)
    ensures
        r is Some <==> (toml_view(*v) matches TomlView::Table(m) && m.dom().contains(key@)),
        r matches Some(x) ==> (toml_view(*v) matches TomlView::Table(m) && toml_view(*x)
            == m[key@]),
{
    v.get(key)
}

/// `toml::Value::as_array`: the elements of an array, in order.
#[verifier::external_body]
pub(crate) fn toml_items<'a>(v: &'a toml::Value) -> (r: Option<&'a Vec<toml::Value>>)
    ensures
        r is Some <==> toml_view(*v) is Array,
        r matches Some(a) ==> (toml_view(*v) matches TomlView::Array(s) && a@.map_values(
            |x: toml::Value| toml_view(x),
        ) == s),
{
    v.as_array()
}

/// `toml::Value::as_str`: the text of a string.
#[verifier::external_body]
pub(crate) fn toml_text<'a>(v: &'a toml::Value) -> (r: Option<&'a str>)
    ensures
        r is Some <==> toml_view(*v) is Str,
        r matches Some(t) ==> (toml_view(*v) matches TomlView::Str(s) && t@ == s),
{
    v.as_str()
}

} // verus!

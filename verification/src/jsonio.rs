//! Trusted bindings to `serde_json`, the one outside crate the engine's
//! logic calls, together with the ghost model their contracts speak of.
//!
//! A parsed document is opaque executable data here, but each one *holds*
//! a mathematical document: `json_doc` names what a `serde_json::Value`
//! holds, `spec_json_parse` names what parsing a text yields, and
//! `spec_json_text`/`spec_json_pretty` name the texts the writer gives a
//! document. Every binding's contract is exact over that model, so the
//! verified readers built on them carry exact contracts too.
use vstd::prelude::*;

verus! {

/// What a JSON document holds. A number is modelled by its two integer
/// readings and its written form; an object by its fields (keys are
/// unique in a parsed document — a later duplicate replaces an earlier
/// one while parsing).
pub ghost enum JsonView {
    Null,
    Bool { b: bool },
    Num { as_u64: Option<u64>, as_i64: Option<i64>, repr: Seq<char> },
    Str { s: Seq<char> },
    Arr { items: Seq<JsonView> },
    Obj { fields: Map<Seq<char>, JsonView> },
}

/// The document a parsed `serde_json::Value` holds.
pub uninterp spec fn json_doc(v: serde_json::Value) -> JsonView;

/// What parsing a text yields: the document, exactly when the text is
/// valid JSON.
pub uninterp spec fn spec_json_parse(s: Seq<char>) -> Option<JsonView>;

/// The compact text the JSON writer gives a document.
pub uninterp spec fn spec_json_text(d: JsonView) -> Seq<char>;

/// The indented text the JSON writer gives a document.
pub uninterp spec fn spec_json_pretty(d: JsonView) -> Seq<char>;

/// The field of an object document under `key`.
pub open spec fn spec_doc_field(d: JsonView, key: Seq<char>) -> Option<JsonView> {
    match d {
        JsonView::Obj { fields } => if fields.dom().contains(key) {
            Some(fields[key])
        } else {
            None
        },
        _ => None,
    }
}

/// The string under `key` of an object document, when there is one.
pub open spec fn spec_field_str(d: JsonView, key: Seq<char>) -> Option<Seq<char>> {
    match spec_doc_field(d, key) {
        Some(JsonView::Str { s }) => Some(s),
        _ => None,
    }
}

/// The unsigned-integer reading of the number under `key`, when there is
/// one.
pub open spec fn spec_field_u64(d: JsonView, key: Seq<char>) -> Option<u64> {
    match spec_doc_field(d, key) {
        Some(JsonView::Num { as_u64, as_i64, repr }) => as_u64,
        _ => None,
    }
}

/// The signed-integer reading of the number under `key`, when there is
/// one.
pub open spec fn spec_field_i64(d: JsonView, key: Seq<char>) -> Option<i64> {
    match spec_doc_field(d, key) {
        Some(JsonView::Num { as_u64, as_i64, repr }) => as_i64,
        _ => None,
    }
}

#[verifier::external_type_specification]
#[verifier::external_body]
pub struct ExValue(serde_json::Value);

/// Relies on `serde_json::from_str::<Value>`: returns the parsed document
/// exactly when `s` is valid JSON; the parse is a function of the text.
#[verifier::external_body]
pub(crate) fn json_parse(s: &str) -> (r: Option<serde_json::Value>)
    ensures
        match r {
            Some(v) => spec_json_parse(s@) == Some(json_doc(v)),
            None => spec_json_parse(s@) is None,
        },
{
    serde_json::from_str(s).ok()
}

/// Relies on `serde_json::Value::get` with a string index: returns the
/// value under `key` exactly when the document is an object holding
/// `key`, and that value holds the object's field.
#[verifier::external_body]
pub(crate) fn json_get<'a>(v: &'a serde_json::Value, key: &str) -> (r: Option<
    &'a serde_json::Value,
>)
    ensures
        match r {
            Some(w) => spec_doc_field(json_doc(*v), key@) == Some(json_doc(*w)),
            None => spec_doc_field(json_doc(*v), key@) is None,
        },
{
    v.get(key)
}

/// Relies on `serde_json::Value::get` with a `usize` index: returns the
/// element at `i` exactly when the document is an array of more than `i`
/// elements.
#[verifier::external_body]
pub(crate) fn json_at<'a>(v: &'a serde_json::Value, i: usize) -> (r: Option<
    &'a serde_json::Value,
>)
    ensures
        match r {
            Some(w) => json_doc(*v) matches JsonView::Arr { items } && i < items.len()
                && json_doc(*w) == items[i as int],
            None => !(json_doc(*v) matches JsonView::Arr { items } && i < items.len()),
        },
{
    v.get(i)
}

/// Relies on `serde_json::Value::is_null`: whether the document is the
/// JSON literal `null`.
#[verifier::external_body]
pub(crate) fn json_is_null(v: &serde_json::Value) -> (r: bool)
    ensures
        r == (json_doc(*v) is Null),
{
    v.is_null()
}

/// Relies on `serde_json::Value::as_str`: returns the characters exactly
/// when the document is a string.
#[verifier::external_body]
pub(crate) fn json_as_string(v: &serde_json::Value) -> (r: Option<String>)
    ensures
        match r {
            Some(s) => json_doc(*v) == (JsonView::Str { s: s@ }),
            None => !(json_doc(*v) is Str),
        },
{
    v.as_str().map(|s| s.to_string())
}

/// Relies on `serde_json::Value::as_u64`: the unsigned reading of a
/// number document, exactly when it has one.
#[verifier::external_body]
pub(crate) fn json_as_u64(v: &serde_json::Value) -> (r: Option<u64>)
    ensures
        match json_doc(*v) {
            JsonView::Num { as_u64, as_i64, repr } => r == as_u64,
            _ => r is None,
        },
{
    v.as_u64()
}

/// Relies on `serde_json::Value::as_i64`: the signed reading of a number
/// document, exactly when it has one.
#[verifier::external_body]
pub(crate) fn json_as_i64(v: &serde_json::Value) -> (r: Option<i64>)
    ensures
        match json_doc(*v) {
            JsonView::Num { as_u64, as_i64, repr } => r == as_i64,
            _ => r is None,
        },
{
    v.as_i64()
}

/// Relies on `serde_json::Value::as_array`: the element count, exactly
/// when the document is an array. An array a parsed document holds is a
/// vector, so its length fits the machine.
#[verifier::external_body]
pub(crate) fn json_array_len(v: &serde_json::Value) -> (r: Option<usize>)
    ensures
        match json_doc(*v) {
            JsonView::Arr { items } => r matches Some(n) && n as nat == items.len(),
            _ => r is None,
        },
{
    v.as_array().map(|a| a.len())
}

/// Relies on `serde_json::to_string`: writes the document compactly, a
/// function of the document alone (object fields come out in key order).
/// Serializing a parsed document never fails — its keys are strings. The
/// compact form holds no whitespace of its own and escapes every control
/// character inside string literals, so the text never contains a raw
/// newline or carriage return — that is what lets a caller frame it into
/// a newline-terminated protocol line.
#[verifier::external_body]
pub(crate) fn json_to_text(v: &serde_json::Value) -> (r: Option<String>)
    ensures
        r is Some,
        match r {
            Some(t) => t@ == spec_json_text(json_doc(*v)) && forall|j: int|
                0 <= j < t@.len() ==> t@[j] != '\n' && t@[j] != '\r',
            None => false,
        },
{
    serde_json::to_string(v).ok()
}

/// Relies on `serde_json::to_string_pretty`: writes the document with
/// indentation, a function of the document alone; never fails on a
/// parsed document.
#[verifier::external_body]
pub(crate) fn json_to_text_pretty(v: &serde_json::Value) -> (r: Option<String>)
    ensures
        r is Some,
        match r {
            Some(t) => t@ == spec_json_pretty(json_doc(*v)),
            None => false,
        },
{
    serde_json::to_string_pretty(v).ok()
}

} // verus!

//! Read access to AnythingLLM's JSON replies. Parsing and lookup are done by
//! `serde_json`; this module names their results and offers typed lookups
//! with defaults, addressed by JSON Pointer paths.

use vstd::prelude::*;
use crate::text::{decimal, push_decimal, push_str};

verus! {

#[verifier::external_type_specification]
#[verifier::external_body]
pub struct ExJsonValue(serde_json::Value);

/// A JSON value as seen from one lookup: scalars in full, containers by kind
/// (arrays with their length).
#[derive(Debug, Clone)]
pub enum JsonLeaf {
    Null,
    Bool(bool),
    /// A number, with its value as an `i64` where it is one.
    Number(Option<i64>),
    Str(String),
    Array(usize),
    Object,
}

/// The mathematical content of a [`JsonLeaf`].
pub enum JsonLeafView {
    Null,
    Bool(bool),
    Number(Option<i64>),
    Str(Seq<char>),
    Array(nat),
    Object,
}

impl View for JsonLeaf {
    type V = JsonLeafView;

    open spec fn view(&self) -> JsonLeafView {
        match self {
            JsonLeaf::Null => JsonLeafView::Null,
            JsonLeaf::Bool(b) => JsonLeafView::Bool(*b),
            JsonLeaf::Number(n) => JsonLeafView::Number(*n),
            JsonLeaf::Str(s) => JsonLeafView::Str(s@),
            JsonLeaf::Array(n) => JsonLeafView::Array(*n as nat),
            JsonLeaf::Object => JsonLeafView::Object,
        }
    }
}

/// A parsed JSON document, together with the text it was parsed from.
pub struct JsonDoc {
    value: serde_json::Value,
    source: Ghost<Seq<char>>,
}

impl View for JsonDoc {
    type V = Seq<char>;

    /// A document is known by the text it was parsed from.
    closed spec fn view(&self) -> Seq<char> {
        self.source@
    }
}

/// Whether `serde_json::from_str::<serde_json::Value>` accepts `text`.
pub uninterp spec fn json_parses(text: Seq<char>) -> bool;

/// What `serde_json::Value::pointer` finds at `pointer` in the document
/// parsed from `text`, as a [`JsonLeafView`].
pub uninterp spec fn json_pointer(text: Seq<char>, pointer: Seq<char>) -> Option<JsonLeafView>;

/// For the document parsed from `text`: the value at `pointer` as an `f64`
/// (`serde_json::Value::as_f64`), written with three decimals (`{:.3}`).
pub uninterp spec fn json_number_fixed3(text: Seq<char>, pointer: Seq<char>) -> Option<Seq<char>>;

/// Calls `serde_json::from_str::<serde_json::Value>`. Whether it succeeds is
/// named by `json_parses`; the document keeps the text as its view.
#[verifier::external_body]
pub(crate) fn parse_json(text: &str) -> (r: Option<JsonDoc>)
    ensures
        r is Some <==> json_parses(text@),
        r matches Some(d) ==> d@ == text@,
{
    match serde_json::from_str::<serde_json::Value>(text) {
        Ok(value) => Some(JsonDoc { value, source: Ghost(text@) }),
        Err(_) => None,
    }
}

/// Calls `serde_json::Value::pointer` and converts the value found, one arm
/// per variant (numbers through `serde_json::Number::as_i64`, arrays by their
/// length). The result is named by `json_pointer` of the document's text and
/// the pointer.
#[verifier::external_body]
pub(crate) fn json_at(doc: &JsonDoc, pointer: &str) -> (r: Option<JsonLeaf>)
    ensures
        match json_pointer(doc@, pointer@) {
            Some(v) => r matches Some(x) && x@ == v,
            None => r is None,
        },
{
    match doc.value.pointer(pointer) {
        None => None,
        Some(serde_json::Value::Null) => Some(JsonLeaf::Null),
        Some(serde_json::Value::Bool(b)) => Some(JsonLeaf::Bool(*b)),
        Some(serde_json::Value::Number(n)) => Some(JsonLeaf::Number(n.as_i64())),
        Some(serde_json::Value::String(s)) => Some(JsonLeaf::Str(s.clone())),
        Some(serde_json::Value::Array(a)) => Some(JsonLeaf::Array(a.len())),
        Some(serde_json::Value::Object(_)) => Some(JsonLeaf::Object),
    }
}

/// Calls `serde_json::Value::pointer`, then `serde_json::Value::as_f64` on the
/// value found, and writes the number with `{:.3}`. The result is named by
/// `json_number_fixed3` of the document's text and the pointer. As the source
/// shows, there is a result only where the value found is a number, and
/// always where that number is an `i64`; which other numbers have one is not
/// stated.
#[verifier::external_body]
pub(crate) fn json_fixed3_at(doc: &JsonDoc, pointer: &str) -> (r: Option<String>)
    ensures
        match json_number_fixed3(doc@, pointer@) {
            Some(v) => r matches Some(x) && x@ == v,
            None => r is None,
        },
        r is Some ==> json_pointer(doc@, pointer@) matches Some(JsonLeafView::Number(_)),
        json_pointer(doc@, pointer@) matches Some(JsonLeafView::Number(Some(_))) ==> r is Some,
{
    match doc.value.pointer(pointer) {
        Some(v) => match v.as_f64() {
            Some(f) => Some(format!("{:.3}", f)),
            None => None,
        },
        None => None,
    }
}

/// The string at `pointer`, or `default` where there is none.
pub open spec fn str_or(text: Seq<char>, pointer: Seq<char>, default: Seq<char>) -> Seq<char> {
    match json_pointer(text, pointer) {
        Some(JsonLeafView::Str(s)) => s,
        _ => default,
    }
}

/// The length of the array at `pointer`, where there is one.
pub open spec fn array_len(text: Seq<char>, pointer: Seq<char>) -> Option<nat> {
    match json_pointer(text, pointer) {
        Some(JsonLeafView::Array(n)) => Some(n),
        _ => None,
    }
}

/// The `i64` at `pointer`, or 0 where there is none.
pub open spec fn int_or_zero(text: Seq<char>, pointer: Seq<char>) -> i64 {
    match json_pointer(text, pointer) {
        Some(JsonLeafView::Number(Some(v))) => v,
        _ => 0,
    }
}

/// The number at `pointer` written with three decimals, or `0.000` where
/// the value there is missing or not a number.
pub open spec fn fixed3_or_zero(text: Seq<char>, pointer: Seq<char>) -> Seq<char> {
    match json_pointer(text, pointer) {
        Some(JsonLeafView::Number(_)) => match json_number_fixed3(text, pointer) {
            Some(s) => s,
            None => "0.000"@,
        },
        _ => "0.000"@,
    }
}

/// The string at `pointer`, or a copy of `default`.
pub fn string_at_or(doc: &JsonDoc, pointer: &str, default: &str) -> (r: String)
    ensures
        r@ == str_or(doc@, pointer@, default@),
{
    match json_at(doc, pointer) {
        Some(JsonLeaf::Str(s)) => s,
        _ => default.to_owned(),
    }
}

/// The length of the array at `pointer`, if the value there is an array.
pub fn array_len_at(doc: &JsonDoc, pointer: &str) -> (r: Option<usize>)
    ensures
        match array_len(doc@, pointer@) {
            Some(n) => r matches Some(x) && x as nat == n,
            None => r is None,
        },
{
    match json_at(doc, pointer) {
        Some(JsonLeaf::Array(n)) => Some(n),
        _ => None,
    }
}

/// The `i64` at `pointer`, or 0.
pub fn int_at_or_zero(doc: &JsonDoc, pointer: &str) -> (r: i64)
    ensures
        r == int_or_zero(doc@, pointer@),
{
    match json_at(doc, pointer) {
        Some(JsonLeaf::Number(Some(v))) => v,
        _ => 0,
    }
}

/// The number at `pointer` with three decimals, or `0.000`.
pub fn fixed3_at_or_zero(doc: &JsonDoc, pointer: &str) -> (r: String)
    ensures
        r@ == fixed3_or_zero(doc@, pointer@),
{
    match json_fixed3_at(doc, pointer) {
        Some(s) => s,
        None => "0.000".to_owned(),
    }
}

/// The pointer to `field` inside element `i` of the array at `base`.
pub open spec fn item_pointer(base: Seq<char>, i: nat, field: Seq<char>) -> Seq<char> {
    base + "/"@ + decimal(i) + field
}

/// Builds the pointer to `field` inside element `i` of the array at `base`.
pub fn make_item_pointer(base: &str, i: usize, field: &str) -> (r: String)
    ensures
        r@ == item_pointer(base@, i as nat, field@),
{
    let mut s = base.to_owned();
    push_str(&mut s, "/");
    push_decimal(&mut s, i as u64);
    push_str(&mut s, field);
    s
}

/// Builds the pointer `base` followed by `field`.
pub fn join_pointer(base: &str, field: &str) -> (r: String)
    ensures
        r@ == base@ + field@,
{
    let mut s = base.to_owned();
    push_str(&mut s, field);
    s
}

} // verus!

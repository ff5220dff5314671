//! The text of JSON values, read and written by `serde_json`.
use vstd::prelude::*;

use crate::json::{Json, JsonModel};

verus! {

/// The value type of `serde_json`.
#[verifier::external_type_specification]
#[verifier::external_body]
pub struct ExValue(serde_json::Value);

/// What `serde_json` reads from a text: the value, or the text of its error.
pub uninterp spec fn parsed(text: Seq<char>) -> Result<JsonModel, Seq<char>>;

/// The compact text that `serde_json` writes for a value.
pub uninterp spec fn compact(value: JsonModel) -> Seq<char>;

/// The indented text that `serde_json` writes for a value, where it writes one.
pub uninterp spec fn pretty(value: JsonModel) -> Option<Seq<char>>;

/// The text that `serde_json` writes for a value for debugging.
pub uninterp spec fn debugged(value: JsonModel) -> Seq<char>;

/// Moves a `serde_json::Value` into a `Json`, variant by variant: an integer is kept
/// as one, any other number by the text of `serde_json::Number`.
#[verifier::external_body]
fn from_value(value: serde_json::Value) -> (r: Json) {
    match value {
        serde_json::Value::Null => Json::Null,
        serde_json::Value::Bool(b) => Json::Bool(b),
        serde_json::Value::Number(n) => match (n.as_i64(), n.as_u64()) {
            (Some(i), _) => Json::Int(i),
            (_, Some(u)) => Json::Large(u),
            _ => Json::Float(n.to_string()),
        },
        serde_json::Value::String(s) => Json::Str(s),
        serde_json::Value::Array(a) => Json::Array(a.into_iter().map(from_value).collect()),
        serde_json::Value::Object(o) => Json::Object(
            o.into_iter().map(|(k, v)| (k, from_value(v))).collect(),
        ),
    }
}

/// Moves a `Json` into a `serde_json::Value`, variant by variant.
#[verifier::external_body]
fn to_value(json: &Json) -> (r: serde_json::Value) {
    match json {
        Json::Null => serde_json::Value::Null,
        Json::Bool(b) => serde_json::Value::Bool(*b),
        Json::Int(i) => serde_json::Value::from(*i),
        Json::Large(u) => serde_json::Value::from(*u),
        Json::Float(t) => t.parse().ok().and_then(serde_json::Number::from_f64).into(),
        Json::Str(s) => serde_json::Value::String(s.clone()),
        Json::Array(a) => serde_json::Value::Array(a.iter().map(to_value).collect()),
        Json::Object(o) => serde_json::Value::Object(
            o.iter().map(|(k, v)| (k.clone(), to_value(v))).collect(),
        ),
    }
}

/// `serde_json::from_str` into a `serde_json::Value`: the value that the text holds,
/// or the text of the error where it holds none.
#[verifier::external_body]
pub(crate) fn parse(text: &str) -> (r: Result<Json, String>)
    ensures
        match r {
            Ok(j) => parsed(text@) == Ok::<JsonModel, Seq<char>>(j@),
            Err(e) => parsed(text@) == Err::<JsonModel, Seq<char>>(e@),
        },
{
    serde_json::from_str::<serde_json::Value>(text).map(from_value).map_err(|e| e.to_string())
}

/// One text comes before another: by the first character at which they differ, or because
/// it is the beginning of the other.
pub open spec fn comes_before(a: Seq<char>, b: Seq<char>) -> bool {
    exists|k: int|
        0 <= k <= a.len() && k < b.len() && #[trigger] a.take(k) == b.take(k) && (k == a.len()
            || a[k] < b[k])
}

/// An object of texts and nulls whose names are in order, each once. None of them begins
/// with a dollar sign: `serde_json` has such names for its own use, and reads an object
/// that begins with one of those otherwise.
pub open spec fn is_flat(v: JsonModel) -> bool {
    match v {
        JsonModel::Object(o) => {
            &&& forall|i: int| 0 <= i < o.len() ==> (#[trigger] o[i]).1 is Str || o[i].1 is Null
            &&& forall|i: int|
                0 <= i < o.len() ==> (#[trigger] o[i]).0.len() == 0 || o[i].0[0] != '$'
            &&& forall|i: int, j: int|
                0 <= i < j < o.len() ==> comes_before((#[trigger] o[i]).0, (#[trigger] o[j]).0)
        },
        _ => false,
    }
}

/// A text is read as that value.
pub open spec fn reads_as(text: Seq<char>, value: JsonModel) -> bool {
    parsed(text) == Ok::<JsonModel, Seq<char>>(value)
}

/// `serde_json::Value::to_string`: the compact text of the value. The text of a flat object
/// is read back as that object.
#[verifier::external_body]
pub(crate) fn to_text(json: &Json) -> (r: String)
    ensures
        r@ == compact(json@),
        is_flat(json@) ==> reads_as(r@, json@),
{
    to_value(json).to_string()
}

/// `serde_json::to_string_pretty` of the value: its indented text.
#[verifier::external_body]
pub(crate) fn to_pretty_text(json: &Json) -> (r: Option<String>)
    ensures
        r.deep_view() == pretty(json@),
{
    serde_json::to_string_pretty(&to_value(json)).ok()
}

/// `format!` of std with `{:?}` on a `serde_json::Value`: the text of the value for
/// debugging.
#[verifier::external_body]
pub(crate) fn debug_text(json: &Json) -> (r: String)
    ensures
        r@ == debugged(json@),
{
    format!("{:?}", to_value(json))
}

/// The value that a text holds, or what is wrong with the text.
pub fn read_json(text: &str) -> (r: Result<Json, String>)
    ensures
        match r {
            Ok(j) => parsed(text@) == Ok::<JsonModel, Seq<char>>(j@),
            Err(e) => parsed(text@) == Err::<JsonModel, Seq<char>>(e@),
        },
{
    parse(text)
}

impl Json {
    /// The compact text of the value.
    pub fn text(&self) -> (r: String)
        ensures
            r@ == compact(self@),
    {
        to_text(self)
    }
}

} // verus!

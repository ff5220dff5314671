//! When two JSON values are the same.
use vstd::prelude::*;

use crate::json;
use crate::json::{field, Json, JsonModel};
use crate::text::same_text;

verus! {

/// A text of the number zero with a fraction, with or without a sign.
pub open spec fn is_zero_text(t: Seq<char>) -> bool {
    t == "0.0"@ || t == "-0.0"@
}

/// Two values are the same: objects regardless of the order of their fields, numbers
/// with a fraction regardless of the sign of zero.
pub open spec fn same_json(a: JsonModel, b: JsonModel) -> bool
    decreases a,
{
    match (a, b) {
        (JsonModel::Null, JsonModel::Null) => true,
        (JsonModel::Bool(x), JsonModel::Bool(y)) => x == y,
        (JsonModel::Int(x), JsonModel::Int(y)) => x == y,
        (JsonModel::Float(x), JsonModel::Float(y)) => x == y || is_zero_text(x)
            && is_zero_text(y),
        (JsonModel::Str(x), JsonModel::Str(y)) => x == y,
        (JsonModel::Array(x), JsonModel::Array(y)) => x.len() == y.len() && forall|i: int|
            0 <= i < x.len() ==> same_json(#[trigger] x[i], y[i]),
        (JsonModel::Object(x), JsonModel::Object(y)) => x.len() == y.len() && forall|i: int|
            0 <= i < x.len() ==> match json::field_of(y, (#[trigger] x[i]).0) {
                Some(v) => same_json(x[i].1, v),
                None => false,
            },
        _ => false,
    }
}

impl Json {
    /// Whether the two values are the same.
    pub fn same(&self, other: &Json) -> (r: bool)
        ensures
            r == same_json(self@, other@),
        decreases self,
    {
        proof {
            json::model_of_parts(*self);
            json::model_of_parts(*other);
        }
        match (self, other) {
            (Json::Null, Json::Null) => true,
            (Json::Bool(x), Json::Bool(y)) => *x == *y,
            (Json::Int(x), Json::Int(y)) => *x == *y,
            (Json::Int(x), Json::Large(y)) => *x >= 0 && *x as u64 == *y,
            (Json::Large(x), Json::Int(y)) => *y >= 0 && *x == *y as u64,
            (Json::Large(x), Json::Large(y)) => *x == *y,
            (Json::Float(x), Json::Float(y)) => same_text(x.as_str(), y.as_str()) || (
            is_zero(x.as_str()) && is_zero(y.as_str())),
            (Json::Str(x), Json::Str(y)) => same_text(x.as_str(), y.as_str()),
            (Json::Array(x), Json::Array(y)) => {
                if x.len() != y.len() {
                    return false;
                }
                let ghost mx = json::items_model(x@);
                let ghost my = json::items_model(y@);
                let mut i: usize = 0;
                while i < x.len()
                    invariant
                        i <= x@.len(),
                        x@.len() == y@.len(),
                        *self == Json::Array(*x),
                        self@ == JsonModel::Array(mx),
                        other@ == JsonModel::Array(my),
                        mx == json::items_model(x@),
                        my == json::items_model(y@),
                        forall|j: int| 0 <= j < i ==> same_json(#[trigger] mx[j], my[j]),
                    decreases x@.len() - i,
                {
                    assert(*x == self->Array_0);
                    assert(decreases_to!(*self => self->Array_0@[i as int]));
                    if !x[i].same(&y[i]) {
                        assert(!same_json(mx[i as int], my[i as int]));
                        return false;
                    }
                    i += 1;
                }
                true
            },
            (Json::Object(x), Json::Object(y)) => {
                if x.len() != y.len() {
                    return false;
                }
                let ghost mx = json::fields_model(x@);
                let ghost my = json::fields_model(y@);
                let mut i: usize = 0;
                while i < x.len()
                    invariant
                        i <= x@.len(),
                        x@.len() == y@.len(),
                        *self == Json::Object(*x),
                        self@ == JsonModel::Object(mx),
                        other@ == JsonModel::Object(my),
                        mx == json::fields_model(x@),
                        my == json::fields_model(y@),
                        forall|j: int|
                            0 <= j < i ==> match json::field_of(my, (#[trigger] mx[j]).0) {
                                Some(v) => same_json(mx[j].1, v),
                                None => false,
                            },
                    decreases x@.len() - i,
                {
                    assert(*x == self->Object_0);
                    assert(decreases_to!(*self => self->Object_0@[i as int].1));
                    assert(mx[i as int] == (x@[i as int].0@, x@[i as int].1@));
                    match field(y.as_slice(), x[i].0.as_str()) {
                        Some(v) => {
                            if !x[i].1.same(v) {
                                return false;
                            }
                        },
                        None => {
                            return false;
                        },
                    }
                    i += 1;
                }
                true
            },
            _ => false,
        }
    }
}

/// Whether the text is that of zero with a fraction.
fn is_zero(t: &str) -> (r: bool)
    ensures
        r == is_zero_text(t@),
{
    same_text(t, "0.0") || same_text(t, "-0.0")
}

/// Values are the same only where they are of one kind: texts, numbers and truth values
/// where they are equal, arrays where their items are the same one by one, and objects where
/// each has the fields of the other, in whatever order.
pub proof fn sameness_is_of_contents(
    x: Seq<char>,
    y: Seq<char>,
    m: int,
    n: int,
    a: Seq<JsonModel>,
    b: Seq<JsonModel>,
    o: Seq<(Seq<char>, JsonModel)>,
    p: Seq<(Seq<char>, JsonModel)>,
)
    ensures
        same_json(JsonModel::Str(x), JsonModel::Str(y)) == (x == y),
        same_json(JsonModel::Int(m), JsonModel::Int(n)) == (m == n),
        same_json(JsonModel::Bool(true), JsonModel::Bool(true)),
        same_json(JsonModel::Bool(false), JsonModel::Bool(false)),
        !same_json(JsonModel::Bool(true), JsonModel::Bool(false)),
        !same_json(JsonModel::Bool(false), JsonModel::Bool(true)),
        same_json(JsonModel::Null, JsonModel::Null),
        !same_json(JsonModel::Str(x), JsonModel::Int(m)),
        !same_json(JsonModel::Int(m), JsonModel::Str(x)),
        !same_json(JsonModel::Null, JsonModel::Str(x)),
        !same_json(JsonModel::Str(x), JsonModel::Null),
        !same_json(JsonModel::Array(a), JsonModel::Object(o)),
        same_json(JsonModel::Array(a), JsonModel::Array(b)) == (a.len() == b.len() && forall|i: int|
            0 <= i < a.len() ==> same_json(#[trigger] a[i], b[i])),
        same_json(JsonModel::Object(o), JsonModel::Object(p)) == (o.len() == p.len()
            && forall|i: int|
            0 <= i < o.len() ==> (json::field_of(p, (#[trigger] o[i]).0) matches Some(v)
                && same_json(o[i].1, v))),
        x == y ==> same_json(JsonModel::Float(x), JsonModel::Float(y)),
{
}

/// Numbers that are no whole ones are the same where they are written the same, and zero is
/// zero whatever its sign; a number is the same as no text, and a truth as no number.
pub proof fn sameness_of_numbers(x: Seq<char>, y: Seq<char>, n: int, b: bool)
    ensures
        same_json(JsonModel::Float("0.0"@), JsonModel::Float("-0.0"@)),
        same_json(JsonModel::Float("-0.0"@), JsonModel::Float("0.0"@)),
        x != y && x != "0.0"@ && x != "-0.0"@ ==> !same_json(
            JsonModel::Float(x),
            JsonModel::Float(y),
        ),
        x != y && y != "0.0"@ && y != "-0.0"@ ==> !same_json(
            JsonModel::Float(x),
            JsonModel::Float(y),
        ),
        !same_json(JsonModel::Float(x), JsonModel::Int(n)),
        !same_json(JsonModel::Int(n), JsonModel::Float(x)),
        !same_json(JsonModel::Float(x), JsonModel::Str(y)),
        !same_json(JsonModel::Bool(b), JsonModel::Int(n)),
{
}

} // verus!

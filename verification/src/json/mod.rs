//! JSON values as plain data, with the reading and writing of their text left to
//! `serde_json`.
use vstd::prelude::*;

pub mod codec;
pub mod equal;
pub mod ops;

pub use ops::{add_field, clone_fields, field, key_position, set_field};

verus! {

/// A JSON value.
///
/// A number is an integer where `serde_json` holds it as one (`Large` above the
/// range of `i64`) and otherwise the text that `serde_json` prints for it.
#[derive(Debug, PartialEq, Eq)]
pub enum Json {
    Null,
    Bool(bool),
    Int(i64),
    Large(u64),
    Float(String),
    Str(String),
    Array(Vec<Json>),
    Object(Vec<(String, Json)>),
}

/// What a JSON value is, over characters and mathematical integers.
pub enum JsonModel {
    Null,
    Bool(bool),
    Int(int),
    Float(Seq<char>),
    Str(Seq<char>),
    Array(Seq<JsonModel>),
    Object(Seq<(Seq<char>, JsonModel)>),
}

impl Json {
    /// What the value is.
    pub open spec fn model(self) -> JsonModel
        decreases self,
    {
        match self {
            Json::Null => JsonModel::Null,
            Json::Bool(b) => JsonModel::Bool(b),
            Json::Int(i) => JsonModel::Int(i as int),
            Json::Large(u) => JsonModel::Int(u as int),
            Json::Float(t) => JsonModel::Float(t@),
            Json::Str(s) => JsonModel::Str(s@),
            Json::Array(a) => JsonModel::Array(
                Seq::new(
                    a@.len(),
                    |i: int|
                        if 0 <= i < a@.len() {
                            a@[i].model()
                        } else {
                            JsonModel::Null
                        },
                ),
            ),
            Json::Object(o) => JsonModel::Object(
                Seq::new(
                    o@.len(),
                    |i: int|
                        if 0 <= i < o@.len() {
                            (o@[i].0@, o@[i].1.model())
                        } else {
                            (Seq::empty(), JsonModel::Null)
                        },
                ),
            ),
        }
    }
}

impl View for Json {
    type V = JsonModel;

    open spec fn view(&self) -> JsonModel {
        self.model()
    }
}

impl DeepView for Json {
    type V = JsonModel;

    open spec fn deep_view(&self) -> JsonModel {
        self.model()
    }
}

// ---------- objects ----------

/// The position of the first field of that name at or after `i`.
pub open spec fn key_from(o: Seq<(Seq<char>, JsonModel)>, key: Seq<char>, i: int) -> Option<int>
    decreases o.len() - i,
{
    if i < 0 || i >= o.len() {
        None
    } else if o[i].0 == key {
        Some(i)
    } else {
        key_from(o, key, i + 1)
    }
}

/// The value of the field of that name.
pub open spec fn field_of(o: Seq<(Seq<char>, JsonModel)>, key: Seq<char>) -> Option<JsonModel> {
    match key_from(o, key, 0) {
        Some(i) => Some(o[i].1),
        None => None,
    }
}

/// The fields with one of them set: in place where the name is there, at the end
/// where it is not.
pub open spec fn with_field(
    o: Seq<(Seq<char>, JsonModel)>,
    key: Seq<char>,
    value: JsonModel,
) -> Seq<(Seq<char>, JsonModel)> {
    match key_from(o, key, 0) {
        Some(i) => o.update(i, (key, value)),
        None => o.push((key, value)),
    }
}

/// A field that is found lies within the object and has the name.
pub proof fn key_from_bounds(o: Seq<(Seq<char>, JsonModel)>, key: Seq<char>, i: int)
    requires
        0 <= i,
    ensures
        match key_from(o, key, i) {
            Some(k) => i <= k < o.len() && o[k].0 == key && (forall|j: int|
                i <= j < k ==> o[j].0 != key),
            None => forall|j: int| i <= j < o.len() ==> o[j].0 != key,
        },
    decreases o.len() - i,
{
    if i < o.len() && o[i].0 != key {
        key_from_bounds(o, key, i + 1);
    }
}

/// A field is found by its name: the first one that has it.
pub proof fn a_field_is_found(o: Seq<(Seq<char>, JsonModel)>, k: int)
    requires
        0 <= k < o.len(),
        forall|j: int| 0 <= j < k ==> (#[trigger] o[j]).0 != o[k].0,
    ensures
        field_of(o, o[k].0) == Some(o[k].1),
{
    key_from_bounds(o, o[k].0, 0);
}

/// Setting a field gives it the value and leaves the others as they are.
pub proof fn a_set_field_is_read_back(
    o: Seq<(Seq<char>, JsonModel)>,
    key: Seq<char>,
    value: JsonModel,
    other: Seq<char>,
)
    requires
        other != key,
    ensures
        field_of(with_field(o, key, value), key) == Some(value),
        field_of(with_field(o, key, value), other) == field_of(o, other),
{
    let changed = with_field(o, key, value);
    key_from_bounds(o, key, 0);
    key_from_bounds(o, other, 0);
    key_from_bounds(changed, key, 0);
    key_from_bounds(changed, other, 0);
    assert(forall|j: int| 0 <= j < o.len() ==> (#[trigger] changed[j]).0 == o[j].0);
    match key_from(o, key, 0) {
        Some(i) => {
            assert(changed[i] == (key, value));
        },
        None => {
            assert(changed[o.len() as int] == (key, value));
        },
    }
    match key_from(o, other, 0) {
        Some(i) => {
            assert(changed[i] == o[i]);
        },
        None => {},
    }
}

impl JsonModel {
    /// The field of that name of an object; none of any other value.
    pub open spec fn get(self, key: Seq<char>) -> Option<JsonModel> {
        match self {
            JsonModel::Object(o) => field_of(o, key),
            _ => None,
        }
    }

    /// The field of that name, or null where there is none.
    pub open spec fn at(self, key: Seq<char>) -> JsonModel {
        match self.get(key) {
            Some(v) => v,
            None => JsonModel::Null,
        }
    }

    /// The text of a string value.
    pub open spec fn as_str(self) -> Option<Seq<char>> {
        match self {
            JsonModel::Str(s) => Some(s),
            _ => None,
        }
    }

    /// The truth value of a boolean value.
    pub open spec fn as_bool(self) -> Option<bool> {
        match self {
            JsonModel::Bool(b) => Some(b),
            _ => None,
        }
    }
}

/// The fields of an object, as models.
pub open spec fn fields_model(o: Seq<(String, Json)>) -> Seq<(Seq<char>, JsonModel)> {
    Seq::new(o.len(), |i: int| (o[i].0@, o[i].1@))
}

/// The items of an array, as models.
pub open spec fn items_model(a: Seq<Json>) -> Seq<JsonModel> {
    Seq::new(a.len(), |i: int| a[i]@)
}

/// The models of the items follow what is added to an array.
pub broadcast proof fn items_model_push(a: Seq<Json>, x: Json)
    ensures
        #[trigger] items_model(a.push(x)) == items_model(a).push(x@),
{
    assert(items_model(a.push(x)) =~= items_model(a).push(x@));
}

/// The models of the fields follow what is added to an object.
pub broadcast proof fn fields_model_push(o: Seq<(String, Json)>, x: (String, Json))
    ensures
        #[trigger] fields_model(o.push(x)) == fields_model(o).push((x.0@, x.1@)),
{
    assert(fields_model(o.push(x)) =~= fields_model(o).push((x.0@, x.1@)));
}

/// The model of an array is made of the models of its items, and that of an object
/// of the names and models of its fields.
pub proof fn model_of_parts(j: Json)
    ensures
        j matches Json::Array(a) ==> j@ == JsonModel::Array(items_model(a@)),
        j matches Json::Object(o) ==> j@ == JsonModel::Object(fields_model(o@)),
{
    match j {
        Json::Array(a) => {
            assert(j@->Array_0 =~= items_model(a@));
        },
        Json::Object(o) => {
            assert(j@->Object_0 =~= fields_model(o@));
        },
        _ => {},
    }
}

/// A string value, or null where there is no text.
pub open spec fn opt_str_model(s: Option<Seq<char>>) -> JsonModel {
    match s {
        Some(t) => JsonModel::Str(t),
        None => JsonModel::Null,
    }
}

/// An array of string values.
pub open spec fn str_array_model(items: Seq<Seq<char>>) -> JsonModel {
    JsonModel::Array(items.map_values(|s: Seq<char>| JsonModel::Str(s)))
}

/// An object that says what is wrong.
pub open spec fn error_model(message: Seq<char>) -> JsonModel {
    JsonModel::Object(seq![("error"@, JsonModel::Str(message))])
}

} // verus!

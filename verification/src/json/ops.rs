//! Reading, building and copying JSON values.
use vstd::prelude::*;

use crate::json;
use crate::json::{Json, JsonModel};
use crate::text::same_text;

verus! {

broadcast use {crate::json::items_model_push, crate::json::fields_model_push};

/// The position of the first field of that name.
pub fn key_position(o: &[(String, Json)], key: &str) -> (r: Option<usize>)
    ensures
        match r {
            Some(i) => i < o@.len() && json::key_from(json::fields_model(o@), key@, 0) == Some(i as int),
            None => json::key_from(json::fields_model(o@), key@, 0) is None,
        },
{
    let mut i: usize = 0;
    while i < o.len()
        invariant
            i <= o@.len(),
            json::key_from(json::fields_model(o@), key@, 0) == json::key_from(json::fields_model(o@), key@, i as int),
        decreases o@.len() - i,
    {
        if same_text(o[i].0.as_str(), key) {
            return Some(i);
        }
        i += 1;
    }
    None
}

/// The value of the field of that name.
pub fn field<'a>(o: &'a [(String, Json)], key: &str) -> (r: Option<&'a Json>)
    ensures
        match r {
            Some(v) => json::field_of(json::fields_model(o@), key@) == Some(v@) && decreases_to!(o@ => *v),
            None => json::field_of(json::fields_model(o@), key@) is None,
        },
{
    match key_position(o, key) {
        Some(i) => {
            assert(decreases_to!(o@ => o@[i as int]));
            assert(decreases_to!(o@[i as int] => o@[i as int].1));
            Some(&o[i].1)
        },
        None => None,
    }
}

/// Adds a field at the end of an object.
pub fn add_field(o: &mut Vec<(String, Json)>, name: &str, value: Json)
    ensures
        json::fields_model(final(o)@) == json::fields_model(old(o)@).push((name@, value@)),
{
    o.push((String::from_str(name), value));
}

/// Sets a field: in place where the name is there, at the end where it is not.
pub fn set_field(o: &mut Vec<(String, Json)>, key: &str, value: Json)
    ensures
        json::fields_model(final(o)@) == json::with_field(json::fields_model(old(o)@), key@, value@),
{
    match key_position(o.as_slice(), key) {
        Some(i) => {
            o[i] = (String::from_str(key), value);
            assert(json::fields_model(o@) =~= json::with_field(json::fields_model(old(o)@), key@, value@));
        },
        None => {
            o.push((String::from_str(key), value));
            assert(json::fields_model(o@) =~= json::with_field(json::fields_model(old(o)@), key@, value@));
        },
    }
}

impl Json {
    /// The field of that name of an object.
    pub fn get(&self, key: &str) -> (r: Option<&Json>)
        ensures
            match r {
                Some(v) => self@.get(key@) == Some(v@) && decreases_to!(*self => *v),
                None => self@.get(key@) is None,
            },
    {
        match self {
            Json::Object(o) => {
                proof {
                    json::model_of_parts(*self);
                }
                field(o.as_slice(), key)
            },
            _ => None,
        }
    }

    /// The text of a string value.
    pub fn as_str(&self) -> (r: Option<&str>)
        ensures
            match r {
                Some(s) => self@.as_str() == Some(s@),
                None => self@.as_str() is None,
            },
    {
        match self {
            Json::Str(s) => Some(s.as_str()),
            _ => None,
        }
    }

    /// The truth value of a boolean value.
    pub fn as_bool(&self) -> (r: Option<bool>)
        ensures
            r == self@.as_bool(),
    {
        match self {
            Json::Bool(b) => Some(*b),
            _ => None,
        }
    }

    /// The text of a string field, where the value is an object that has it.
    pub fn str_field(&self, key: &str) -> (r: Option<&str>)
        ensures
            match r {
                Some(s) => self@.at(key@).as_str() == Some(s@),
                None => self@.at(key@).as_str() is None,
            },
    {
        match self.get(key) {
            Some(v) => v.as_str(),
            None => None,
        }
    }

    /// Whether the value is null.
    pub fn is_null(&self) -> (r: bool)
        ensures
            r == (self@ is Null),
    {
        match self {
            Json::Null => true,
            _ => false,
        }
    }

    /// An object that says what is wrong.
    pub fn error(message: &str) -> (r: Json)
        ensures
            r@ == json::error_model(message@),
    {
        let mut o: Vec<(String, Json)> = Vec::new();
        add_field(&mut o, "error", Json::string(message));
        let r = Json::object(o);
        assert(r@->Object_0 =~= json::error_model(message@)->Object_0);
        r
    }

    /// A string value.
    pub fn string(s: &str) -> (r: Json)
        ensures
            r@ == JsonModel::Str(s@),
    {
        Json::Str(String::from_str(s))
    }

    /// A count as an integer value.
    pub fn count(n: u64) -> (r: Json)
        ensures
            r@ == JsonModel::Int(n as int),
    {
        if n <= i64::MAX as u64 {
            Json::Int(n as i64)
        } else {
            Json::Large(n)
        }
    }

    /// A string value, or null where there is no text.
    pub fn opt_str(s: &Option<String>) -> (r: Json)
        ensures
            r@ == json::opt_str_model(s.deep_view()),
    {
        match s {
            Some(t) => Json::Str(t.clone()),
            None => Json::Null,
        }
    }

    /// An array value.
    pub fn array(items: Vec<Json>) -> (r: Json)
        ensures
            r@ == JsonModel::Array(json::items_model(items@)),
    {
        let r = Json::Array(items);
        proof {
            json::model_of_parts(r);
        }
        r
    }

    /// An object value.
    pub fn object(fields: Vec<(String, Json)>) -> (r: Json)
        ensures
            r@ == JsonModel::Object(json::fields_model(fields@)),
    {
        let r = Json::Object(fields);
        proof {
            json::model_of_parts(r);
        }
        r
    }

    /// An array of string values.
    pub fn str_array(items: &[String]) -> (r: Json)
        ensures
            r@ == json::str_array_model(items.deep_view()),
    {
        let mut v: Vec<Json> = Vec::new();
        let mut i: usize = 0;
        while i < items.len()
            invariant
                i <= items@.len(),
                json::items_model(v@) == items.deep_view().take(i as int).map_values(
                    |s: Seq<char>| JsonModel::Str(s),
                ),
            decreases items@.len() - i,
        {
            let ghost before = json::items_model(v@);
            v.push(Json::Str(items[i].clone()));
            i += 1;
            assert(before.push(JsonModel::Str(items.deep_view()[i - 1]))
                =~= items.deep_view().take(i as int).map_values(
                |s: Seq<char>| JsonModel::Str(s),
            ));
        }
        assert(items.deep_view().take(i as int) =~= items.deep_view());
        Json::array(v)
    }
}

impl Clone for Json {
    fn clone(&self) -> (r: Self)
        ensures
            r@ == self@,
        decreases self,
    {
        match self {
            Json::Null => Json::Null,
            Json::Bool(b) => Json::Bool(*b),
            Json::Int(i) => Json::Int(*i),
            Json::Large(u) => Json::Large(*u),
            Json::Float(t) => Json::Float(t.clone()),
            Json::Str(s) => Json::Str(s.clone()),
            Json::Array(a) => {
                let mut v: Vec<Json> = Vec::new();
                let mut i: usize = 0;
                while i < a.len()
                    invariant
                        i <= a@.len(),
                        *self == Json::Array(*a),
                        json::items_model(v@) == json::items_model(a@).take(i as int),
                    decreases a@.len() - i,
                {
                    assert(*a == self->Array_0);
                    assert(decreases_to!(*self => self->Array_0@[i as int]));
                    v.push(a[i].clone());
                    i += 1;
                    assert(json::items_model(a@).take(i as int) =~= json::items_model(a@).take(i - 1).push(
                        json::items_model(a@)[i - 1],
                    ));
                }
                proof {
                    json::model_of_parts(*self);
                    assert(json::items_model(a@).take(i as int) =~= json::items_model(a@));
                }
                Json::array(v)
            },
            Json::Object(o) => {
                let mut v: Vec<(String, Json)> = Vec::new();
                let mut i: usize = 0;
                while i < o.len()
                    invariant
                        i <= o@.len(),
                        *self == Json::Object(*o),
                        json::fields_model(v@) == json::fields_model(o@).take(i as int),
                    decreases o@.len() - i,
                {
                    assert(*o == self->Object_0);
                    assert(decreases_to!(*self => self->Object_0@[i as int].1));
                    v.push((o[i].0.clone(), o[i].1.clone()));
                    i += 1;
                    assert(json::fields_model(o@).take(i as int) =~= json::fields_model(o@).take(i - 1).push(
                        json::fields_model(o@)[i - 1],
                    ));
                }
                proof {
                    json::model_of_parts(*self);
                    assert(json::fields_model(o@).take(i as int) =~= json::fields_model(o@));
                }
                Json::object(v)
            },
        }
    }
}

/// A copy of the fields of an object.
pub fn clone_fields(o: &[(String, Json)]) -> (r: Vec<(String, Json)>)
    ensures
        json::fields_model(r@) == json::fields_model(o@),
{
    let mut v: Vec<(String, Json)> = Vec::new();
    let mut i: usize = 0;
    while i < o.len()
        invariant
            i <= o@.len(),
            json::fields_model(v@) == json::fields_model(o@).take(i as int),
        decreases o@.len() - i,
    {
        v.push((o[i].0.clone(), o[i].1.clone()));
        i += 1;
        assert(json::fields_model(o@).take(i as int) =~= json::fields_model(o@).take(i - 1).push(
            json::fields_model(o@)[i - 1],
        ));
    }
    assert(json::fields_model(o@).take(i as int) =~= json::fields_model(o@));
    v
}

} // verus!

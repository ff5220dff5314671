//! The form that the answer of a sub-agent is to have, and whether it has it.
use vstd::prelude::*;

use crate::json;
use crate::json::codec;
use crate::json::codec::{parse, to_pretty_text, to_text};
use crate::json::equal;
use crate::json::{clone_fields, field, Json, JsonModel};
use crate::text;
use crate::text::{
    chars_end_with, chars_of, chars_start_with, cut, decimal_text, find_char, find_chars,
    find_outer_span, find_span, join_text, same_text, string_of, text_starts_with, trim_chars,
    trim_end_chars, trim_end_text,
};

verus! {

broadcast use {crate::seqs::group_views, crate::json::items_model_push};

/// How often an answer of the wrong form is asked for again.
pub const MAX_SCHEMA_RETRIES: usize = 1;

/// The fields of a schema.
pub type SchemaModel = Seq<(Seq<char>, JsonModel)>;

// ---------- what counts as a schema ----------

/// The object has a field of that name.
pub open spec fn has_key(o: SchemaModel, key: Seq<char>) -> bool {
    json::field_of(o, key) is Some
}

/// The object has one of the fields that make a schema.
pub open spec fn is_schema(o: SchemaModel) -> bool {
    ||| has_key(o, "type"@)
    ||| has_key(o, "$ref"@)
    ||| has_key(o, "properties"@)
    ||| has_key(o, "anyOf"@)
    ||| has_key(o, "allOf"@)
    ||| has_key(o, "oneOf"@)
}

/// Whether the object has one of the fields that make a schema.
pub fn is_valid_json_schema(schema: &[(String, Json)]) -> (r: bool)
    ensures
        r == is_schema(json::fields_model(schema@)),
{
    if field(schema, "type").is_some() || field(schema, "$ref").is_some() || field(
        schema,
        "properties",
    ).is_some() {
        return true;
    }
    field(schema, "anyOf").is_some() || field(schema, "allOf").is_some() || field(
        schema,
        "oneOf",
    ).is_some()
}

/// The schema that a value is, or the reason why it is none.
pub open spec fn schema_of(value: JsonModel) -> Result<SchemaModel, Seq<char>> {
    match value {
        JsonModel::Object(o) => if is_schema(o) {
            Ok(o)
        } else {
            Err("output_schema is not a valid JSON Schema."@)
        },
        _ => Err(
            "output_schema must be a JSON Schema object, got "@ + codec::compact(value) + "."@,
        ),
    }
}

/// The schema that is asked for: none where nothing is given; a text is read as JSON
/// first.
pub open spec fn requested_schema(
    raw: Option<JsonModel>,
) -> Result<Option<SchemaModel>, Seq<char>> {
    match raw {
        None => Ok(None),
        Some(JsonModel::Str(s)) => match codec::parsed(s) {
            Ok(v) => match schema_of(v) {
                Ok(o) => Ok(Some(o)),
                Err(e) => Err(e),
            },
            Err(_) => Err(
                "output_schema must be a JSON Schema object, got a non-JSON string."@,
            ),
        },
        Some(v) => match schema_of(v) {
            Ok(o) => Ok(Some(o)),
            Err(e) => Err(e),
        },
    }
}

/// The model of an optional value.
pub open spec fn opt_json(j: Option<&Json>) -> Option<JsonModel> {
    match j {
        Some(v) => Some(v@),
        None => None,
    }
}

/// The model of an optional schema.
pub open spec fn opt_schema(s: Option<Vec<(String, Json)>>) -> Option<SchemaModel> {
    match s {
        Some(o) => Some(json::fields_model(o@)),
        None => None,
    }
}

/// The schema that the value is, or the reason why it is none.
pub fn schema_from_value(value: &Json) -> (r: Result<Vec<(String, Json)>, String>)
    ensures
        match r {
            Ok(o) => schema_of(value@) == Ok::<SchemaModel, Seq<char>>(json::fields_model(o@)),
            Err(e) => schema_of(value@) == Err::<SchemaModel, Seq<char>>(e@),
        },
{
    proof {
        json::model_of_parts(*value);
    }
    match value {
        Json::Object(o) => {
            if is_valid_json_schema(o.as_slice()) {
                Ok(clone_fields(o.as_slice()))
            } else {
                Err(String::from_str("output_schema is not a valid JSON Schema."))
            }
        },
        _ => {
            let mut e = String::from_str("output_schema must be a JSON Schema object, got ");
            e.append(to_text(value).as_str());
            e.append(".");
            Err(e)
        },
    }
}

/// The schema that is asked for: none where nothing is given; a text is read as JSON
/// first, since models now and then write the schema twice encoded.
pub fn coerce_output_schema(raw: Option<&Json>) -> (r: Result<
    Option<Vec<(String, Json)>>,
    String,
>)
    ensures
        match r {
            Ok(s) => requested_schema(opt_json(raw)) == Ok::<Option<SchemaModel>, Seq<char>>(
                opt_schema(s),
            ),
            Err(e) => requested_schema(opt_json(raw)) == Err::<Option<SchemaModel>, Seq<char>>(
                e@,
            ),
        },
{
    match raw {
        None => Ok(None),
        Some(v) => match v {
            Json::Str(s) => match parse(s.as_str()) {
                Ok(parsed) => match schema_from_value(&parsed) {
                    Ok(o) => Ok(Some(o)),
                    Err(e) => Err(e),
                },
                Err(_) => Err(
                    String::from_str(
                        "output_schema must be a JSON Schema object, got a non-JSON string.",
                    ),
                ),
            },
            _ => match schema_from_value(v) {
                Ok(o) => Ok(Some(o)),
                Err(e) => Err(e),
            },
        },
    }
}

// ---------- telling the sub-agent ----------

/// What precedes the schema in a task.
pub const CONTRACT_HEAD: &'static str =
    "OUTPUT CONTRACT (machine-validated):\nYour FINAL response must be a single JSON object that validates against this JSON Schema. No prose before or after the JSON; a ```json code fence is acceptable but not required.\n";

/// The text of a schema: over several lines where that can be had.
pub open spec fn schema_text(schema: SchemaModel) -> Seq<char> {
    match codec::pretty(JsonModel::Object(schema)) {
        Some(t) => t,
        None => codec::compact(JsonModel::Object(schema)),
    }
}

/// Two texts with an empty line between them; the second alone where the first has no
/// content. Blanks at the end of the first are left out.
pub open spec fn below(base: Seq<char>, addition: Seq<char>) -> Seq<char> {
    if text::trim_end(base).len() == 0 {
        addition
    } else {
        text::trim_end(base) + "\n\n"@ + addition
    }
}

/// The context of a task with the schema added.
pub open spec fn with_contract(context: Seq<char>, schema: SchemaModel) -> Seq<char> {
    below(context, CONTRACT_HEAD@ + schema_text(schema))
}

/// The context of a task with the schema added.
pub fn append_output_contract(context: &str, schema: &[(String, Json)]) -> (r: String)
    ensures
        r@ == with_contract(context@, json::fields_model(schema@)),
{
    let value = Json::object(clone_fields(schema));
    let schema_text = match to_pretty_text(&value) {
        Some(t) => t,
        None => to_text(&value),
    };
    let mut block = String::from_str(CONTRACT_HEAD);
    block.append(schema_text.as_str());
    let mut base = trim_end_text(context);
    if base.as_str().unicode_len() == 0 {
        block
    } else {
        base.append("\n\n");
        base.append(block.as_str());
        base
    }
}

/// The lines of the errors.
pub open spec fn error_lines(errors: Seq<Seq<char>>) -> Seq<Seq<char>> {
    errors.map_values(|e: Seq<char>| "- "@ + e)
}

/// The message that asks for the answer again: it names the errors and does not repeat
/// the schema.
pub open spec fn retry_message(errors: Seq<Seq<char>>) -> Seq<char> {
    "Your previous final response was rejected by the output contract validator. Validation errors:\n"@
        + text::join(error_lines(errors), "\n"@)
        + "\n\nReply with ONLY the corrected JSON object matching the OUTPUT CONTRACT schema from your task context. No prose, no explanations."@
}

/// The message that asks for the answer again: it names the errors and does not repeat
/// the schema.
pub fn build_retry_message(errors: &[String]) -> (r: String)
    ensures
        r@ == retry_message(errors.deep_view()),
{
    let ghost all = error_lines(errors.deep_view());
    let mut lines: Vec<String> = Vec::new();
    let mut i: usize = 0;
    while i < errors.len()
        invariant
            i <= errors@.len(),
            all == error_lines(errors.deep_view()),
            lines.deep_view() == all.take(i as int),
        decreases errors@.len() - i,
    {
        let mut line = String::from_str("- ");
        line.append(errors[i].as_str());
        assert(line@ == all[i as int]);
        lines.push(line);
        i += 1;
        assert(all.take(i as int) =~= all.take(i - 1).push(all[i - 1]));
    }
    assert(all.take(i as int) =~= all);
    let mut s = String::from_str(
        "Your previous final response was rejected by the output contract validator. Validation errors:\n",
    );
    s.append(join_text(lines.as_slice(), "\n").as_str());
    s.append(
        "\n\nReply with ONLY the corrected JSON object matching the OUTPUT CONTRACT schema from your task context. No prose, no explanations.",
    );
    s
}

// ---------- finding the JSON in an answer ----------

/// What follows the first line break; all of it where there is none.
pub open spec fn after_first_line(s: Seq<char>) -> Seq<char> {
    match text::first_of(s, '\n') {
        Some(i) => s.skip(i + 1),
        None => s,
    }
}

/// The text without the fences at its end.
pub open spec fn without_fences(t: Seq<char>) -> Seq<char>
    decreases t.len(),
{
    if t.len() >= 3 && text::ends_with(t, "```"@) {
        without_fences(t.take(t.len() - 3))
    } else {
        t
    }
}

/// What a fence encloses, with the language that may stand at its head: the fences at the
/// end are left out, or, where the text does not end with one, what follows the first
/// fence that begins a line.
pub open spec fn fenced(raw: Seq<char>) -> Seq<char> {
    let rest = after_first_line(raw);
    let end = text::trim_end(rest);
    text::trim(
        if text::ends_with(end, "```"@) {
            without_fences(end)
        } else {
            match text::find(rest, "\n```"@) {
                Some(k) => rest.take(k),
                None => rest,
            }
        },
    )
}

/// The content of a fence without the language at its head; `lower` is the content in
/// lower case.
pub open spec fn without_language(inner: Seq<char>, lower: Seq<char>) -> Seq<char> {
    if text::starts_with(lower, "json\n"@) {
        after_first_line(inner)
    } else {
        inner
    }
}

/// The text without the prose around it: what the curly brackets enclose, or the square
/// ones where they stand round the curly ones or there are no curly ones. A text that
/// begins with a curly bracket that is never closed stays as it is, and so does one without
/// brackets.
pub open spec fn outermost(raw: Seq<char>) -> Seq<char> {
    match (text::span(raw, '{', '}'), text::span(raw, '[', ']')) {
        (Some(curly), _) => text::cut_span(raw, text::outer_span(raw, curly)),
        (None, Some(square)) => if raw[0] == '{' {
            raw
        } else {
            text::cut_span(raw, square)
        },
        (None, None) => raw,
    }
}

/// The part of an answer that may be JSON: what a fence encloses, else what the outermost
/// brackets enclose, else all of it.
pub open spec fn candidate(answer: Seq<char>) -> Seq<char> {
    let raw = text::trim(answer);
    if text::starts_with(raw, "```"@) {
        without_language(fenced(raw), text::lowercased(fenced(raw)))
    } else {
        outermost(raw)
    }
}

/// What follows the first line break; all of it where there is none.
fn rest_after_first_line(s: &[char]) -> (r: Vec<char>)
    ensures
        r@ == after_first_line(s@),
{
    match find_char(s, '\n') {
        Some(i) => {
            proof {
                text::find_from_is_first(s@, seq!['\n'], 0);
            }
            let n: usize = s.len();
            let r = cut(s, i + 1, n);
            assert(r@ =~= after_first_line(s@));
            r
        },
        None => {
            let r = cut(s, 0, s.len());
            assert(r@ =~= s@);
            r
        },
    }
}

/// The text without the fences at its end.
fn strip_fences(t: &[char]) -> (r: Vec<char>)
    ensures
        r@ == without_fences(t@),
{
    let fence = chars_of("```");
    proof {
        reveal_strlit("```");
    }
    let mut n: usize = t.len();
    assert(t@.take(n as int) =~= t@);
    while n >= 3 && chars_end_with(cut(t, 0, n).as_slice(), fence.as_slice())
        invariant
            n <= t@.len(),
            fence@ == "```"@,
            without_fences(t@) == without_fences(t@.take(n as int)),
        decreases n,
    {
        assert(t@.subrange(0, n as int) =~= t@.take(n as int));
        assert(t@.take(n as int).take(n - 3) =~= t@.take(n - 3));
        n = n - 3;
    }
    let r = cut(t, 0, n);
    assert(r@ =~= t@.take(n as int));
    r
}

/// The content of a fence without the language at its head; `lower` is the content in
/// lower case.
pub fn strip_language(inner: &str, lower: &str) -> (r: String)
    ensures
        r@ == without_language(inner@, lower@),
{
    if text_starts_with(lower, "json\n") {
        let rest = rest_after_first_line(chars_of(inner).as_slice());
        string_of(rest.as_slice())
    } else {
        String::from_str(inner)
    }
}

/// The text without the prose around it.
fn cut_outermost(raw: &[char]) -> (r: Vec<char>)
    ensures
        r@ == outermost(raw@),
{
    let n: usize = raw.len();
    if let Some(curly) = find_span(raw, '{', '}') {
        let outer = find_outer_span(raw, curly);
        return cut(raw, outer.0, outer.1 + 1);
    }
    let r = match find_span(raw, '[', ']') {
        Some(square) => if raw[0] == '{' {
            cut(raw, 0, n)
        } else {
            cut(raw, square.0, square.1 + 1)
        },
        None => cut(raw, 0, n),
    };
    assert(r@ =~= outermost(raw@));
    r
}

/// The part of an answer that may be JSON: what a fence encloses, else what the outermost
/// brackets enclose, else all of it.
pub fn extract_json_candidate(answer: &str) -> (r: String)
    ensures
        r@ == candidate(answer@),
{
    let raw = trim_chars(chars_of(answer).as_slice());
    let fence = chars_of("```");
    if chars_start_with(raw.as_slice(), fence.as_slice()) {
        let rest = rest_after_first_line(raw.as_slice());
        let end = trim_end_chars(rest.as_slice());
        let within = if chars_end_with(end.as_slice(), fence.as_slice()) {
            strip_fences(end.as_slice())
        } else {
            let line = chars_of("\n```");
            match find_chars(rest.as_slice(), line.as_slice()) {
                Some(k) => {
                    let within = cut(rest.as_slice(), 0, k);
                    assert(within@ =~= rest@.take(k as int));
                    within
                },
                None => rest,
            }
        };
        let inner = trim_chars(within.as_slice());
        let inner = string_of(inner.as_slice());
        let lower = inner.as_str().to_lowercase();
        return strip_language(inner.as_str(), lower.as_str());
    }
    string_of(cut_outermost(raw.as_slice()).as_slice())
}

// ---------- whether a value has the form ----------

/// The name of the type of a value.
pub open spec fn kind_name(value: JsonModel) -> Seq<char> {
    match value {
        JsonModel::Null => "null"@,
        JsonModel::Bool(_) => "boolean"@,
        JsonModel::Int(_) => "integer"@,
        JsonModel::Float(_) => "number"@,
        JsonModel::Str(_) => "string"@,
        JsonModel::Array(_) => "array"@,
        JsonModel::Object(_) => "object"@,
    }
}

/// The value is of the type of that name; an integer is a number too.
pub open spec fn is_of_type(value: JsonModel, name: Seq<char>) -> bool {
    name == kind_name(value) || name == "number"@ && value is Int
}

/// The texts among the values.
pub open spec fn texts_of(items: Seq<JsonModel>) -> Seq<Seq<char>>
    decreases items.len(),
{
    if items.len() == 0 {
        Seq::empty()
    } else {
        let rest = texts_of(items.drop_last());
        match items.last() {
            JsonModel::Str(s) => rest.push(s),
            _ => rest,
        }
    }
}

/// The types that a schema allows.
pub open spec fn allowed_types(given: JsonModel) -> Seq<Seq<char>> {
    match given {
        JsonModel::Str(s) => seq![s],
        JsonModel::Array(a) => texts_of(a),
        _ => Seq::empty(),
    }
}

/// The value is of one of the types.
pub open spec fn is_of_some_type(value: JsonModel, names: Seq<Seq<char>>) -> bool {
    exists|i: int| 0 <= i < names.len() && is_of_type(value, #[trigger] names[i])
}

/// What is wrong with the type of a value.
pub open spec fn type_errors(
    value: JsonModel,
    schema: SchemaModel,
    path: Seq<char>,
) -> Seq<Seq<char>> {
    match json::field_of(schema, "type"@) {
        Some(given) => {
            let names = allowed_types(given);
            if names.len() > 0 && !is_of_some_type(value, names) {
                seq![
                    path + ": expected type "@ + text::join(names, " or "@) + ", got "@
                        + kind_name(value),
                ]
            } else {
                Seq::empty()
            }
        },
        None => Seq::empty(),
    }
}

/// The value is one of those.
pub open spec fn is_one_of(value: JsonModel, items: Seq<JsonModel>) -> bool {
    exists|i: int| 0 <= i < items.len() && equal::same_json(#[trigger] items[i], value)
}

/// What is wrong with a value that is to be one of a few.
pub open spec fn enum_errors(
    value: JsonModel,
    schema: SchemaModel,
    path: Seq<char>,
) -> Seq<Seq<char>> {
    match json::field_of(schema, "enum"@) {
        Some(JsonModel::Array(items)) => if is_one_of(value, items) {
            Seq::empty()
        } else {
            seq![path + ": value is not one of the allowed enum values"@]
        },
        _ => Seq::empty(),
    }
}

/// The required fields that an object lacks.
pub open spec fn missing_errors(
    object: SchemaModel,
    required: Seq<JsonModel>,
    path: Seq<char>,
) -> Seq<Seq<char>>
    decreases required.len(),
{
    if required.len() == 0 {
        Seq::empty()
    } else {
        let rest = missing_errors(object, required.drop_last(), path);
        match required.last() {
            JsonModel::Str(s) => if has_key(object, s) {
                rest
            } else {
                rest.push(path + "."@ + s + ": is required"@)
            },
            _ => rest,
        }
    }
}

/// What is wrong with the required fields of a value.
pub open spec fn required_errors(
    object: SchemaModel,
    schema: SchemaModel,
    path: Seq<char>,
) -> Seq<Seq<char>> {
    match json::field_of(schema, "required"@) {
        Some(JsonModel::Array(required)) => missing_errors(object, required, path),
        _ => Seq::empty(),
    }
}

/// What is wrong with a value, by a schema: its type, its being one of a few, the fields
/// that it lacks, those that it has, and its items. The path says where the value stands.
pub open spec fn schema_errors(
    value: JsonModel,
    schema: SchemaModel,
    path: Seq<char>,
) -> Seq<Seq<char>>
    decreases schema, 0nat,
{
    proof {
        json::key_from_bounds(schema, "properties"@, 0);
        json::key_from_bounds(schema, "items"@, 0);
    }
    let missing = match value {
        JsonModel::Object(object) => required_errors(object, schema, path),
        _ => Seq::empty(),
    };
    let of_fields = match (json::field_of(schema, "properties"@), value) {
        (Some(JsonModel::Object(props)), JsonModel::Object(object)) => field_errors(
            object,
            props,
            path,
        ),
        _ => Seq::empty(),
    };
    let of_items = match (json::field_of(schema, "items"@), value) {
        (Some(JsonModel::Object(form)), JsonModel::Array(items)) => item_errors(
            items,
            form,
            path,
        ),
        _ => Seq::empty(),
    };
    type_errors(value, schema, path) + enum_errors(value, schema, path) + missing + of_fields
        + of_items
}

/// What is wrong with the fields of an object, by the schemas of the fields.
pub open spec fn field_errors(
    object: SchemaModel,
    props: SchemaModel,
    path: Seq<char>,
) -> Seq<Seq<char>>
    decreases props, 0nat,
{
    if props.len() == 0 {
        Seq::empty()
    } else {
        let rest = field_errors(object, props.drop_last(), path);
        let (key, form) = props.last();
        match (json::field_of(object, key), form) {
            (Some(v), JsonModel::Object(o)) => rest + schema_errors(v, o, path + "."@ + key),
            _ => rest,
        }
    }
}

/// What is wrong with the items of an array, by the schema of the items.
pub open spec fn item_errors(
    items: Seq<JsonModel>,
    form: SchemaModel,
    path: Seq<char>,
) -> Seq<Seq<char>>
    decreases form, items.len() + 1,
{
    if items.len() == 0 {
        Seq::empty()
    } else {
        item_errors(items.drop_last(), form, path) + schema_errors(
            items.last(),
            form,
            path + "["@ + text::decimal((items.len() - 1) as nat) + "]"@,
        )
    }
}

/// The name of the type of a value.
pub fn json_kind_name(value: &Json) -> (r: &'static str)
    ensures
        r@ == kind_name(value@),
{
    match value {
        Json::Null => "null",
        Json::Bool(_) => "boolean",
        Json::Int(_) => "integer",
        Json::Large(_) => "integer",
        Json::Float(_) => "number",
        Json::Str(_) => "string",
        Json::Array(_) => "array",
        Json::Object(_) => "object",
    }
}

/// Whether the value is of one of the types.
pub fn matches_type(value: &Json, types: &[String]) -> (r: bool)
    ensures
        r == is_of_some_type(value@, types.deep_view()),
{
    let ghost names = types.deep_view();
    let name = json_kind_name(value);
    let integer = match value {
        Json::Int(_) => true,
        Json::Large(_) => true,
        _ => false,
    };
    let mut i: usize = 0;
    while i < types.len()
        invariant
            i <= types@.len(),
            names == types.deep_view(),
            name@ == kind_name(value@),
            integer == (value@ is Int),
            forall|j: int| 0 <= j < i ==> !is_of_type(value@, #[trigger] names[j]),
        decreases types@.len() - i,
    {
        assert(names[i as int] == types@[i as int]@);
        if same_text(types[i].as_str(), name) || (integer && same_text(
            types[i].as_str(),
            "number",
        )) {
            assert(is_of_type(value@, names[i as int]));
            return true;
        }
        i += 1;
    }
    false
}

/// The texts among the values.
pub fn text_items(items: &[Json]) -> (r: Vec<String>)
    ensures
        r.deep_view() == texts_of(json::items_model(items@)),
{
    let ghost all = json::items_model(items@);
    let mut out: Vec<String> = Vec::new();
    let mut i: usize = 0;
    assert(all.take(0) =~= Seq::<JsonModel>::empty());
    while i < items.len()
        invariant
            i <= items@.len(),
            all == json::items_model(items@),
            out.deep_view() == texts_of(all.take(i as int)),
        decreases items@.len() - i,
    {
        proof {
            assert(all.take(i + 1).drop_last() =~= all.take(i as int));
            assert(all.take(i + 1).last() == items@[i as int]@);
        }
        if let Json::Str(s) = &items[i] {
            out.push(s.clone());
        }
        i += 1;
    }
    assert(all.take(i as int) =~= all);
    out
}

/// What is wrong with the type of a value.
fn check_type(value: &Json, schema: &[(String, Json)], path: &str) -> (r: Vec<String>)
    ensures
        r.deep_view() == type_errors(value@, json::fields_model(schema@), path@),
{
    let mut errors: Vec<String> = Vec::new();
    if let Some(given) = field(schema, "type") {
        proof {
            json::model_of_parts(*given);
        }
        let names: Vec<String> = match given {
            Json::Str(s) => {
                let mut v: Vec<String> = Vec::new();
                v.push(s.clone());
                v
            },
            Json::Array(a) => text_items(a.as_slice()),
            _ => Vec::new(),
        };
        assert(names.deep_view() =~= allowed_types(given@));
        if names.len() > 0 && !matches_type(value, names.as_slice()) {
            let mut e = String::from_str(path);
            e.append(": expected type ");
            e.append(join_text(names.as_slice(), " or ").as_str());
            e.append(", got ");
            e.append(json_kind_name(value));
            errors.push(e);
        }
    }
    assert(errors.deep_view() =~= type_errors(value@, json::fields_model(schema@), path@));
    errors
}

/// Whether the value is one of those.
fn is_among(value: &Json, items: &[Json]) -> (r: bool)
    ensures
        r == is_one_of(value@, json::items_model(items@)),
{
    let ghost all = json::items_model(items@);
    let mut i: usize = 0;
    while i < items.len()
        invariant
            i <= items@.len(),
            all == json::items_model(items@),
            forall|j: int| 0 <= j < i ==> !equal::same_json(#[trigger] all[j], value@),
        decreases items@.len() - i,
    {
        if items[i].same(value) {
            assert(equal::same_json(all[i as int], value@));
            return true;
        }
        i += 1;
    }
    false
}

/// What is wrong with a value that is to be one of a few.
fn check_enum(value: &Json, schema: &[(String, Json)], path: &str) -> (r: Vec<String>)
    ensures
        r.deep_view() == enum_errors(value@, json::fields_model(schema@), path@),
{
    let mut errors: Vec<String> = Vec::new();
    if let Some(given) = field(schema, "enum") {
        proof {
            json::model_of_parts(*given);
        }
        if let Json::Array(items) = given {
            if !is_among(value, items.as_slice()) {
                let mut e = String::from_str(path);
                e.append(": value is not one of the allowed enum values");
                errors.push(e);
            }
        }
    }
    assert(errors.deep_view() =~= enum_errors(value@, json::fields_model(schema@), path@));
    errors
}

/// The required fields that an object lacks.
fn check_required(
    object: &[(String, Json)],
    schema: &[(String, Json)],
    path: &str,
) -> (r: Vec<String>)
    ensures
        r.deep_view() == required_errors(
            json::fields_model(object@),
            json::fields_model(schema@),
            path@,
        ),
{
    let mut errors: Vec<String> = Vec::new();
    let ghost fields = json::fields_model(object@);
    if let Some(given) = field(schema, "required") {
        proof {
            json::model_of_parts(*given);
        }
        if let Json::Array(required) = given {
            let ghost all = json::items_model(required@);
            let mut i: usize = 0;
            assert(all.take(0) =~= Seq::<JsonModel>::empty());
            while i < required.len()
                invariant
                    i <= required@.len(),
                    all == json::items_model(required@),
                    fields == json::fields_model(object@),
                    errors.deep_view() == missing_errors(fields, all.take(i as int), path@),
                decreases required@.len() - i,
            {
                proof {
                    assert(all.take(i + 1).drop_last() =~= all.take(i as int));
                    assert(all.take(i + 1).last() == required@[i as int]@);
                }
                if let Json::Str(s) = &required[i] {
                    if field(object, s.as_str()).is_none() {
                        let mut e = String::from_str(path);
                        e.append(".");
                        e.append(s.as_str());
                        e.append(": is required");
                        errors.push(e);
                    }
                }
                i += 1;
            }
            assert(all.take(i as int) =~= all);
        }
    }
    errors
}

/// Adds texts at the end of others.
fn add_all(to: &mut Vec<String>, from: &[String])
    ensures
        final(to).deep_view() == old(to).deep_view() + from.deep_view(),
{
    let ghost before = to.deep_view();
    let ghost all = from.deep_view();
    let mut i: usize = 0;
    assert(before + all.take(0) =~= before);
    while i < from.len()
        invariant
            i <= from@.len(),
            all == from.deep_view(),
            to.deep_view() == before + all.take(i as int),
        decreases from@.len() - i,
    {
        to.push(from[i].clone());
        i += 1;
        assert(before + all.take(i as int) =~= (before + all.take(i - 1)).push(all[i - 1]));
    }
    assert(all.take(i as int) =~= all);
}

/// What is wrong with a value, by a schema. The path says where the value stands.
pub fn validate_against_schema(value: &Json, schema: &[(String, Json)], path: &str) -> (r: Vec<
    String,
>)
    ensures
        r.deep_view() == schema_errors(value@, json::fields_model(schema@), path@),
    decreases schema@,
{
    let ghost model = json::fields_model(schema@);
    proof {
        json::model_of_parts(*value);
    }
    let mut errors = check_type(value, schema, path);
    add_all(&mut errors, check_enum(value, schema, path).as_slice());
    let ghost of_value = errors.deep_view();
    assert(of_value == type_errors(value@, model, path@) + enum_errors(value@, model, path@));
    if let Json::Object(object) = value {
        add_all(&mut errors, check_required(object.as_slice(), schema, path).as_slice());
    }
    let ghost missing = match value@ {
        JsonModel::Object(object) => required_errors(object, model, path@),
        _ => Seq::empty(),
    };
    assert(errors.deep_view() =~= of_value + missing);
    let mut of_fields: Vec<String> = Vec::new();
    if let Some(given) = field(schema, "properties") {
        proof {
            json::model_of_parts(*given);
        }
        if let Json::Object(props) = given {
            if let Json::Object(object) = value {
                let ghost all = json::fields_model(props@);
                let ghost fields = json::fields_model(object@);
                let mut i: usize = 0;
                assert(all.take(0) =~= Seq::<(Seq<char>, JsonModel)>::empty());
                while i < props.len()
                    invariant
                        i <= props@.len(),
                        *given == Json::Object(*props),
                        decreases_to!(schema@ => *given),
                        all == json::fields_model(props@),
                        fields == json::fields_model(object@),
                        of_fields.deep_view() == field_errors(fields, all.take(i as int), path@),
                    decreases props@.len() - i,
                {
                    proof {
                        assert(all.take(i + 1).drop_last() =~= all.take(i as int));
                        assert(all.take(i + 1).last() == (
                            props@[i as int].0@,
                            props@[i as int].1@,
                        ));
                        json::model_of_parts(props@[i as int].1);
                        assert(*props == given->Object_0);
                        assert(decreases_to!(*given => given->Object_0@[i as int].1));
                    }
                    if let Some(v) = field(object.as_slice(), props[i].0.as_str()) {
                        if let Json::Object(form) = &props[i].1 {
                            assert(decreases_to!(props@[i as int].1 => props@[i as int].1->Object_0@));
                            assert(props@[i as int].1->Object_0@ == form@);
                            let mut child_path = String::from_str(path);
                            child_path.append(".");
                            child_path.append(props[i].0.as_str());
                            let inner = validate_against_schema(
                                v,
                                form.as_slice(),
                                child_path.as_str(),
                            );
                            add_all(&mut of_fields, inner.as_slice());
                        }
                    }
                    i += 1;
                    assert(of_fields.deep_view() =~= field_errors(
                        fields,
                        all.take(i as int),
                        path@,
                    ));
                }
                assert(all.take(i as int) =~= all);
            }
        }
    }
    let mut of_items: Vec<String> = Vec::new();
    if let Some(given) = field(schema, "items") {
        proof {
            json::model_of_parts(*given);
        }
        if let Json::Object(form) = given {
            if let Json::Array(items) = value {
                let ghost all = json::items_model(items@);
                let ghost fields = json::fields_model(form@);
                let mut i: usize = 0;
                assert(all.take(0) =~= Seq::<JsonModel>::empty());
                while i < items.len()
                    invariant
                        i <= items@.len(),
                        *given == Json::Object(*form),
                        decreases_to!(schema@ => *given),
                        all == json::items_model(items@),
                        fields == json::fields_model(form@),
                        of_items.deep_view() == item_errors(all.take(i as int), fields, path@),
                    decreases items@.len() - i,
                {
                    proof {
                        assert(all.take(i + 1).drop_last() =~= all.take(i as int));
                        assert(all.take(i + 1).last() == items@[i as int]@);
                        assert(*form == given->Object_0);
                        assert(decreases_to!(*given => given->Object_0@));
                    }
                    let mut child_path = String::from_str(path);
                    child_path.append("[");
                    child_path.append(decimal_text(i as u64).as_str());
                    child_path.append("]");
                    let inner = validate_against_schema(
                        &items[i],
                        form.as_slice(),
                        child_path.as_str(),
                    );
                    add_all(&mut of_items, inner.as_slice());
                    i += 1;
                }
                assert(all.take(i as int) =~= all);
            }
        }
    }
    add_all(&mut errors, of_fields.as_slice());
    add_all(&mut errors, of_items.as_slice());
    errors
}

/// What is wrong with an answer, by a schema.
pub open spec fn answer_errors(answer: Seq<char>, schema: SchemaModel) -> Seq<Seq<char>> {
    let c = candidate(answer);
    if text::trim(c).len() == 0 {
        seq!["Response was empty — expected a JSON object matching the schema."@]
    } else {
        match codec::parsed(c) {
            Err(e) => seq!["Response is not valid JSON: "@ + e],
            Ok(value) => schema_errors(value, schema, "$"@),
        }
    }
}

/// Whether an answer has the form of the schema, and what is wrong with it.
pub fn validate_output(answer: &str, schema: &[(String, Json)]) -> (r: (bool, Vec<String>))
    ensures
        r.1.deep_view() == answer_errors(answer@, json::fields_model(schema@)),
        r.0 == (r.1@.len() == 0),
{
    let c = extract_json_candidate(answer);
    let mut errors: Vec<String> = Vec::new();
    if trim_chars(chars_of(c.as_str()).as_slice()).len() == 0 {
        errors.push(
            String::from_str(
                "Response was empty — expected a JSON object matching the schema.",
            ),
        );
        assert(errors.deep_view() =~= answer_errors(answer@, json::fields_model(schema@)));
        return (false, errors);
    }
    match parse(c.as_str()) {
        Err(e) => {
            let mut msg = String::from_str("Response is not valid JSON: ");
            msg.append(e.as_str());
            errors.push(msg);
            assert(errors.deep_view() =~= answer_errors(answer@, json::fields_model(schema@)));
            (false, errors)
        },
        Ok(value) => {
            let errors = validate_against_schema(&value, schema, "$");
            (errors.len() == 0, errors)
        },
    }
}

// ---------- laws ----------

/// A required field that an object lacks is among the errors.
proof fn missing_field_is_named(
    object: SchemaModel,
    required: Seq<JsonModel>,
    path: Seq<char>,
    key: Seq<char>,
)
    requires
        required.contains(JsonModel::Str(key)),
        !has_key(object, key),
    ensures
        missing_errors(object, required, path).len() > 0,
    decreases required.len(),
{
    if required.last() != JsonModel::Str(key) {
        let k = choose|k: int| 0 <= k < required.len() && required[k] == JsonModel::Str(key);
        assert(required.drop_last()[k] == JsonModel::Str(key));
        missing_field_is_named(object, required.drop_last(), path, key);
    }
}

/// An object with no errors has every field that its schema requires.
pub proof fn an_accepted_object_has_the_required_fields(
    object: SchemaModel,
    schema: SchemaModel,
    path: Seq<char>,
    key: Seq<char>,
)
    requires
        schema_errors(JsonModel::Object(object), schema, path).len() == 0,
        json::field_of(schema, "required"@) matches Some(JsonModel::Array(required))
            && required.contains(JsonModel::Str(key)),
    ensures
        has_key(object, key),
{
    if !has_key(object, key) {
        let required = json::field_of(schema, "required"@)->Some_0->Array_0;
        missing_field_is_named(object, required, path, key);
    }
}

/// A value with no errors is of a type that its schema allows, where it names any.
pub proof fn an_accepted_value_has_an_allowed_type(
    value: JsonModel,
    schema: SchemaModel,
    path: Seq<char>,
    given: JsonModel,
)
    requires
        schema_errors(value, schema, path).len() == 0,
        json::field_of(schema, "type"@) == Some(given),
        allowed_types(given).len() > 0,
    ensures
        is_of_some_type(value, allowed_types(given)),
{
}

/// The fields of an object are held to their schemas.
proof fn field_is_checked(object: SchemaModel, props: SchemaModel, path: Seq<char>, k: int)
    requires
        field_errors(object, props, path).len() == 0,
        0 <= k < props.len(),
        props[k].1 is Object,
        has_key(object, props[k].0),
    ensures
        schema_errors(
            json::field_of(object, props[k].0)->Some_0,
            props[k].1->Object_0,
            path + "."@ + props[k].0,
        ).len() == 0,
    decreases props.len(),
{
    if k < props.len() - 1 {
        assert(props.drop_last()[k] == props[k]);
        field_is_checked(object, props.drop_last(), path, k);
    }
}

/// The fields of an object with no errors have none either, by their own schemas.
pub proof fn fields_of_an_accepted_object_are_accepted(
    object: SchemaModel,
    schema: SchemaModel,
    props: SchemaModel,
    path: Seq<char>,
    k: int,
)
    requires
        schema_errors(JsonModel::Object(object), schema, path).len() == 0,
        json::field_of(schema, "properties"@) == Some(JsonModel::Object(props)),
        0 <= k < props.len(),
        props[k].1 is Object,
        has_key(object, props[k].0),
    ensures
        schema_errors(
            json::field_of(object, props[k].0)->Some_0,
            props[k].1->Object_0,
            path + "."@ + props[k].0,
        ).len() == 0,
{
    field_is_checked(object, props, path, k);
}

/// The texts among values are those that are there.
pub proof fn texts_are_those_of_the_items(items: Seq<JsonModel>, s: Seq<char>)
    ensures
        texts_of(items).contains(s) == items.contains(JsonModel::Str(s)),
        (forall|i: int| 0 <= i < items.len() ==> (#[trigger] items[i]) is Str) ==> texts_of(
            items,
        ).len() == items.len(),
    decreases items.len(),
{
    if items.len() > 0 {
        let front = items.drop_last();
        let rest = texts_of(front);
        let all = texts_of(items);
        texts_are_those_of_the_items(front, s);
        if items.contains(JsonModel::Str(s)) {
            let k = choose|k: int| 0 <= k < items.len() && items[k] == JsonModel::Str(s);
            if k < front.len() {
                assert(front[k] == items[k]);
                let i = choose|i: int| 0 <= i < rest.len() && rest[i] == s;
                assert(all[i] == s);
            } else {
                assert(all[all.len() - 1] == s);
            }
        }
        if all.contains(s) {
            let i = choose|i: int| 0 <= i < all.len() && all[i] == s;
            if i < rest.len() {
                assert(rest[i] == s);
                let k = choose|k: int| 0 <= k < front.len() && front[k] == JsonModel::Str(s);
                assert(items[k] == JsonModel::Str(s));
            } else {
                assert(items[items.len() - 1] == JsonModel::Str(s));
            }
        }
        if forall|i: int| 0 <= i < items.len() ==> (#[trigger] items[i]) is Str {
            assert forall|i: int| 0 <= i < front.len() implies (#[trigger] front[i]) is Str by {
                assert(front[i] == items[i]);
            }
            assert(items[items.len() - 1] is Str);
        }
    }
}

/// No required field is missing exactly where every one of them is there.
proof fn nothing_is_missing_where_all_is_there(
    object: SchemaModel,
    required: Seq<JsonModel>,
    path: Seq<char>,
)
    ensures
        missing_errors(object, required, path).len() == 0 <==> forall|i: int|
            0 <= i < required.len() ==> ((#[trigger] required[i]) matches JsonModel::Str(s)
                ==> json::field_of(object, s) is Some),
    decreases required.len(),
{
    if required.len() > 0 {
        let front = required.drop_last();
        nothing_is_missing_where_all_is_there(object, front, path);
        if missing_errors(object, required, path).len() == 0 {
            assert forall|i: int| 0 <= i < required.len() implies ((
            #[trigger] required[i]) matches JsonModel::Str(s) ==> json::field_of(object, s)
                is Some) by {
                if i < front.len() {
                    assert(front[i] == required[i]);
                }
            }
        }
        if forall|i: int|
            0 <= i < required.len() ==> ((#[trigger] required[i]) matches JsonModel::Str(s)
                ==> json::field_of(object, s) is Some) {
            assert forall|i: int| 0 <= i < front.len() implies ((
            #[trigger] front[i]) matches JsonModel::Str(s) ==> json::field_of(object, s)
                is Some) by {
                assert(front[i] == required[i]);
            }
            assert(required[required.len() - 1] matches JsonModel::Str(s) ==> json::field_of(
                object,
                s,
            ) is Some);
        }
    }
}

/// The fields of an object have no errors exactly where each that is there has none.
proof fn fields_fit_one_by_one(object: SchemaModel, props: SchemaModel, path: Seq<char>)
    ensures
        field_errors(object, props, path).len() == 0 <==> forall|k: int|
            0 <= k < props.len() ==> ((#[trigger] props[k]).1 matches JsonModel::Object(form)
                ==> (json::field_of(object, props[k].0) matches Some(v) ==> schema_errors(
                v,
                form,
                path + "."@ + props[k].0,
            ).len() == 0)),
    decreases props.len(),
{
    if props.len() > 0 {
        let front = props.drop_last();
        fields_fit_one_by_one(object, front, path);
        if field_errors(object, props, path).len() == 0 {
            assert forall|k: int| 0 <= k < props.len() implies ((
            #[trigger] props[k]).1 matches JsonModel::Object(form) ==> (json::field_of(
                object,
                props[k].0,
            ) matches Some(v) ==> schema_errors(v, form, path + "."@ + props[k].0).len() == 0)) by {
                if k < front.len() {
                    assert(front[k] == props[k]);
                }
            }
        }
        if forall|k: int|
            0 <= k < props.len() ==> ((#[trigger] props[k]).1 matches JsonModel::Object(form)
                ==> (json::field_of(object, props[k].0) matches Some(v) ==> schema_errors(
                v,
                form,
                path + "."@ + props[k].0,
            ).len() == 0)) {
            assert forall|k: int| 0 <= k < front.len() implies ((
            #[trigger] front[k]).1 matches JsonModel::Object(form) ==> (json::field_of(
                object,
                front[k].0,
            ) matches Some(v) ==> schema_errors(v, form, path + "."@ + front[k].0).len() == 0)) by {
                assert(front[k] == props[k]);
            }
            assert(props[props.len() - 1] == props.last());
        }
    }
}

/// The items of an array have no errors exactly where each of them has none.
proof fn items_fit_one_by_one(items: Seq<JsonModel>, form: SchemaModel, path: Seq<char>)
    ensures
        item_errors(items, form, path).len() == 0 <==> forall|i: int|
            0 <= i < items.len() ==> schema_errors(
                #[trigger] items[i],
                form,
                path + "["@ + text::decimal(i as nat) + "]"@,
            ).len() == 0,
    decreases items.len(),
{
    if items.len() > 0 {
        let front = items.drop_last();
        items_fit_one_by_one(front, form, path);
        if item_errors(items, form, path).len() == 0 {
            assert forall|i: int| 0 <= i < items.len() implies schema_errors(
                #[trigger] items[i],
                form,
                path + "["@ + text::decimal(i as nat) + "]"@,
            ).len() == 0 by {
                if i < front.len() {
                    assert(front[i] == items[i]);
                }
            }
        }
        if forall|i: int|
            0 <= i < items.len() ==> schema_errors(
                #[trigger] items[i],
                form,
                path + "["@ + text::decimal(i as nat) + "]"@,
            ).len() == 0 {
            assert forall|i: int| 0 <= i < front.len() implies schema_errors(
                #[trigger] front[i],
                form,
                path + "["@ + text::decimal(i as nat) + "]"@,
            ).len() == 0 by {
                assert(front[i] == items[i]);
            }
            assert(items[items.len() - 1] == items.last());
        }
    }
}

/// A value is accepted by a schema exactly where it is of a type that the schema names, is
/// one of the values that it lists, has the fields that it requires, and where what it has
/// of fields and items is accepted by their schemas; what the schema does not say is not
/// asked for.
pub proof fn a_value_is_accepted_exactly_where_it_fits(
    value: JsonModel,
    schema: SchemaModel,
    path: Seq<char>,
)
    ensures
        schema_errors(value, schema, path).len() == 0 <==> {
            &&& json::field_of(schema, "type"@) matches Some(JsonModel::Str(name)) ==> is_of_type(
                value,
                name,
            )
            &&& json::field_of(schema, "type"@) matches Some(JsonModel::Array(names)) ==> ((exists|
                s: Seq<char>,
            |
                #[trigger] names.contains(JsonModel::Str(s))) ==> exists|s: Seq<char>| #[trigger]
                names.contains(JsonModel::Str(s)) && is_of_type(value, s))
            &&& json::field_of(schema, "enum"@) matches Some(JsonModel::Array(listed)) ==> exists|
                i: int,
            |
                0 <= i < listed.len() && equal::same_json(#[trigger] listed[i], value)
            &&& json::field_of(schema, "required"@) matches Some(JsonModel::Array(required)) ==> (
            value matches JsonModel::Object(object) ==> forall|i: int|
                0 <= i < required.len() ==> ((#[trigger] required[i]) matches JsonModel::Str(s)
                    ==> json::field_of(object, s) is Some))
            &&& json::field_of(schema, "properties"@) matches Some(JsonModel::Object(props)) ==> (
            value matches JsonModel::Object(object) ==> forall|k: int|
                0 <= k < props.len() ==> ((#[trigger] props[k]).1 matches JsonModel::Object(form)
                    ==> (json::field_of(object, props[k].0) matches Some(v) ==> schema_errors(
                    v,
                    form,
                    path + "."@ + props[k].0,
                ).len() == 0)))
            &&& json::field_of(schema, "items"@) matches Some(JsonModel::Object(form)) ==> (value
                matches JsonModel::Array(items) ==> forall|i: int|
                0 <= i < items.len() ==> schema_errors(
                    #[trigger] items[i],
                    form,
                    path + "["@ + text::decimal(i as nat) + "]"@,
                ).len() == 0)
        },
{
    let missing = match value {
        JsonModel::Object(object) => required_errors(object, schema, path),
        _ => Seq::empty(),
    };
    if let JsonModel::Object(object) = value {
        if let Some(JsonModel::Array(required)) = json::field_of(schema, "required"@) {
            nothing_is_missing_where_all_is_there(object, required, path);
        }
        if let Some(JsonModel::Object(props)) = json::field_of(schema, "properties"@) {
            fields_fit_one_by_one(object, props, path);
        }
    }
    if let JsonModel::Array(items) = value {
        if let Some(JsonModel::Object(form)) = json::field_of(schema, "items"@) {
            items_fit_one_by_one(items, form, path);
        }
    }
    match json::field_of(schema, "type"@) {
        Some(JsonModel::Str(name)) => {
            assert(allowed_types(JsonModel::Str(name))[0] == name);
        },
        Some(JsonModel::Array(names)) => {
            let all = texts_of(names);
            assert forall|s: Seq<char>| all.contains(s) == #[trigger] names.contains(
                JsonModel::Str(s),
            ) by {
                texts_are_those_of_the_items(names, s);
            }
            if all.len() > 0 {
                assert(all.contains(all[0]));
                assert(names.contains(JsonModel::Str(all[0])));
            }
            if is_of_some_type(value, all) {
                let i = choose|i: int| 0 <= i < all.len() && is_of_type(value, #[trigger] all[i]);
                assert(all.contains(all[i]));
                assert(names.contains(JsonModel::Str(all[i])));
            }
            if exists|s: Seq<char>| #[trigger]
                names.contains(JsonModel::Str(s)) && is_of_type(value, s) {
                let s = choose|s: Seq<char>| #[trigger]
                    names.contains(JsonModel::Str(s)) && is_of_type(value, s);
                assert(all.contains(s));
                let i = choose|i: int| 0 <= i < all.len() && all[i] == s;
                assert(is_of_type(value, all[i]));
            }
        },
        _ => {},
    }
}

/// A value that is one of those that a schema lists is accepted by it where the schema says
/// nothing else, and one that is none of them is refused, whatever else the schema says.
pub proof fn listed_values_are_accepted(
    value: JsonModel,
    schema: SchemaModel,
    listed: Seq<JsonModel>,
    path: Seq<char>,
)
    requires
        json::field_of(schema, "enum"@) == Some(JsonModel::Array(listed)),
    ensures
        (forall|i: int| 0 <= i < listed.len() ==> !equal::same_json(#[trigger] listed[i], value))
            ==> schema_errors(value, schema, path).len() > 0,
        (exists|i: int| 0 <= i < listed.len() && equal::same_json(#[trigger] listed[i], value))
            && json::field_of(schema, "type"@) is None && json::field_of(schema, "required"@)
            is None && json::field_of(schema, "properties"@) is None && json::field_of(
            schema,
            "items"@,
        ) is None ==> schema_errors(value, schema, path).len() == 0,
{
    a_value_is_accepted_exactly_where_it_fits(value, schema, path);
}

/// The types by their names: every value has one, and a whole number is a number as well.
pub proof fn types_have_their_names(
    s: Seq<char>,
    n: int,
    b: bool,
    f: Seq<char>,
    a: Seq<JsonModel>,
    o: SchemaModel,
    name: Seq<char>,
)
    ensures
        is_of_type(JsonModel::Str(s), name) == (name == "string"@),
        is_of_type(JsonModel::Int(n), name) == (name == "integer"@ || name == "number"@),
        is_of_type(JsonModel::Float(f), name) == (name == "number"@),
        is_of_type(JsonModel::Bool(b), name) == (name == "boolean"@),
        is_of_type(JsonModel::Null, name) == (name == "null"@),
        is_of_type(JsonModel::Array(a), name) == (name == "array"@),
        is_of_type(JsonModel::Object(o), name) == (name == "object"@),
{
}

/// An answer is accepted exactly where the part of it that may be JSON is JSON and is
/// accepted by the schema.
pub proof fn an_answer_is_accepted_exactly_where_it_fits(answer: Seq<char>, schema: SchemaModel)
    ensures
        answer_errors(answer, schema).len() == 0 <==> {
            &&& text::trim(candidate(answer)).len() > 0
            &&& codec::parsed(candidate(answer)) matches Ok(value) && schema_errors(
                value,
                schema,
                "$"@,
            ).len() == 0
        },
{
}

/// An answer that is an object, or an array of values without objects, is looked at as it is,
/// without the space around it.
pub proof fn a_bare_answer_is_looked_at_as_it_is(answer: Seq<char>)
    requires
        ({
            let raw = text::trim(answer);
            raw.len() >= 2 && (raw[0] == '{' && raw.last() == '}' || raw[0] == '[' && raw.last()
                == ']' && !raw.contains('{'))
        }),
    ensures
        candidate(answer) == text::trim(answer),
{
    let raw = text::trim(answer);
    reveal_strlit("```");
    assert("```"@[0] == '`');
    if text::starts_with(raw, "```"@) {
        assert(raw.subrange(0, 3)[0] == raw[0]);
    }
    if raw[0] == '{' {
        span_of_ends(raw, '{', '}');
        text::only_enclosing_brackets_are_outer(raw, (0, raw.len() - 1));
        text::find_from_is_first(raw, seq!['['], 0);
        assert(text::cut_span(raw, (0, raw.len() - 1)) =~= raw);
    } else {
        span_of_ends(raw, '[', ']');
        text::spans_reach_from_first_to_last(raw, '{', '}');
        if let Some(s) = text::span(raw, '{', '}') {
            assert(raw.contains(raw[s.0]));
        }
        assert(text::cut_span(raw, (0, raw.len() - 1)) =~= raw);
    }
}

/// Brackets at both ends of a text span it.
proof fn span_of_ends(raw: Seq<char>, opener: char, closer: char)
    requires
        raw.len() >= 2,
        raw[0] == opener,
        raw.last() == closer,
    ensures
        text::span(raw, opener, closer) == Some((0int, raw.len() - 1)),
{
    text::find_from_is_first(raw, seq![opener], 0);
    assert(raw.subrange(0, 1) =~= seq![opener]);
    assert(text::occurs_at(raw, seq![opener], 0));
    text::last_of_is_last(raw, closer);
}

/// Prose around an object is left out: of a text that has no bracket before the object and
/// no closing one behind it, the object is looked at.
pub proof fn prose_is_left_out(before: Seq<char>, object: Seq<char>, after: Seq<char>)
    requires
        object.len() >= 2,
        object[0] == '{',
        object.last() == '}',
        !before.contains('{') && !before.contains('[') && !after.contains('}'),
        text::trim(before + object + after) == before + object + after,
        !text::starts_with(before + object + after, "```"@),
    ensures
        candidate(before + object + after) == object,
{
    let raw = before + object + after;
    let start = before.len() as int;
    let end = before.len() + object.len() - 1;
    text::find_from_is_first(raw, seq!['{'], 0);
    assert(raw.subrange(start, start + 1) =~= seq!['{']);
    assert(text::occurs_at(raw, seq!['{'], start));
    assert forall|i: int| 0 <= i < start implies !text::occurs_at(raw, seq!['{'], i) by {
        if text::occurs_at(raw, seq!['{'], i) {
            assert(raw.subrange(i, i + 1)[0] == raw[i]);
            assert(before.contains(before[i]));
        }
    }
    text::last_of_is_last(raw, '}');
    assert(raw[end] == '}');
    assert forall|i: int| end < i < raw.len() implies raw[i] != '}' by {
        if raw[i] == '}' {
            assert(after[i - end - 1] == '}');
            assert(after.contains(after[i - end - 1]));
        }
    }
    assert(text::span(raw, '{', '}') == Some((start, end)));
    text::only_enclosing_brackets_are_outer(raw, (start, end));
    text::find_from_is_first(raw, seq!['['], 0);
    let outer = text::outer_span(raw, (start, end));
    if outer != (start, end) {
        assert(text::occurs_at(raw, seq!['['], outer.0));
        assert(raw.subrange(outer.0, outer.0 + 1)[0] == raw[outer.0]);
        assert(before.contains(before[outer.0]));
    }
    assert(text::cut_span(raw, (start, end)) =~= object);
}

/// What stands between a line that opens a fence and the fence that closes it is what the
/// fence encloses.
pub proof fn what_a_fence_encloses(language: Seq<char>, body: Seq<char>)
    requires
        !language.contains('\n'),
        body.len() > 0,
        text::trim(body) == body,
    ensures
        fenced("```"@ + language + "\n"@ + body + "\n```"@) == body,
{
    reveal_strlit("```");
    reveal_strlit("\n");
    reveal_strlit("\n```");
    let raw = "```"@ + language + "\n"@ + body + "\n```"@;
    let line = 3 + language.len() as int;
    let rest = body + "\n```"@;
    text::find_from_is_first(raw, seq!['\n'], 0);
    assert(raw[line] == '\n');
    assert(raw.subrange(line, line + 1) =~= seq!['\n']);
    assert(text::occurs_at(raw, seq!['\n'], line));
    assert forall|i: int| 0 <= i < line implies !text::occurs_at(raw, seq!['\n'], i) by {
        if text::occurs_at(raw, seq!['\n'], i) {
            assert(raw.subrange(i, i + 1)[0] == raw[i]);
            if i >= 3 {
                assert(language[i - 3] == raw[i]);
                assert(language.contains(language[i - 3]));
            }
        }
    }
    assert(raw.skip(line + 1) =~= rest);
    assert(after_first_line(raw) == rest);
    text::content_end_bounds(rest);
    assert(rest.last() == '`');
    assert(text::trim_end(rest) =~= rest);
    assert(rest.subrange(rest.len() - 3, rest.len() as int) =~= "```"@);
    assert(text::ends_with(rest, "```"@));
    let inner = rest.take(rest.len() - 3);
    assert(inner =~= body + "\n"@);
    assert(!text::ends_with(inner, "```"@)) by {
        if text::ends_with(inner, "```"@) {
            assert(inner.subrange(inner.len() - 3, inner.len() as int)[2] == inner.last());
        }
    }
    assert(without_fences(rest) == without_fences(inner));
    assert(without_fences(inner) == inner);
    text::a_line_break_behind_is_left_out(body);
}

/// A task says in which form its answer is to be, behind its context; the context is left as
/// it is but for the space at its end.
pub proof fn the_form_is_told(context: Seq<char>, schema: SchemaModel)
    ensures
        text::contains(with_contract(context, schema), text::trim_end(context)),
        text::contains(with_contract(context, schema), CONTRACT_HEAD@),
        codec::pretty(JsonModel::Object(schema)) matches Some(t) ==> text::ends_with(
            with_contract(context, schema),
            t,
        ),
        codec::pretty(JsonModel::Object(schema)) is None ==> text::ends_with(
            with_contract(context, schema),
            codec::compact(JsonModel::Object(schema)),
        ),
{
    broadcast use text::group_parts;

    let w = with_contract(context, schema);
    let t = schema_text(schema);
    assert(w.subrange(w.len() - t.len(), w.len() as int) =~= t);
    if text::trim_end(context).len() == 0 {
        assert(w.subrange(0, 0) =~= text::trim_end(context));
        assert(text::occurs_at(w, text::trim_end(context), 0));
    }
}

/// An answer that is asked for again comes with everything that was wrong with it.
pub proof fn what_is_wrong_is_told(errors: Seq<Seq<char>>, i: int)
    requires
        0 <= i < errors.len(),
    ensures
        text::contains(retry_message(errors), errors[i]),
{
    broadcast use text::group_parts;

    let lines = error_lines(errors);
    let list = text::join(lines, "\n"@);
    text::parts_stand_in_a_join(lines, "\n"@, i);
    assert(lines[i] == "- "@ + errors[i]);
    assert(text::contains(lines[i], errors[i]));
    text::a_part_of_a_part(list, lines[i], errors[i]);
}

/// What is asked for as a form is taken as it is where it is an object with one of the
/// fields that make a schema, and refused where it is anything else; a text is read first,
/// and nothing is asked for where nothing is given.
pub proof fn a_form_is_taken_as_it_is(o: SchemaModel, s: Seq<char>, n: int, a: Seq<JsonModel>)
    ensures
        requested_schema(None) == Ok::<Option<SchemaModel>, Seq<char>>(None),
        json::field_of(o, "type"@) is Some || json::field_of(o, "properties"@) is Some
            || json::field_of(o, "$ref"@) is Some || json::field_of(o, "anyOf"@) is Some
            || json::field_of(o, "allOf"@) is Some || json::field_of(o, "oneOf"@) is Some
            ==> requested_schema(Some(JsonModel::Object(o))) == Ok::<
            Option<SchemaModel>,
            Seq<char>,
        >(Some(o)),
        json::field_of(o, "type"@) is None && json::field_of(o, "properties"@) is None
            && json::field_of(o, "$ref"@) is None && json::field_of(o, "anyOf"@) is None
            && json::field_of(o, "allOf"@) is None && json::field_of(o, "oneOf"@) is None
            ==> requested_schema(Some(JsonModel::Object(o))) is Err,
        requested_schema(Some(JsonModel::Int(n))) is Err,
        requested_schema(Some(JsonModel::Array(a))) is Err,
        codec::parsed(s) is Err ==> requested_schema(Some(JsonModel::Str(s))) is Err,
        codec::parsed(s) matches Ok(JsonModel::Object(p)) ==> requested_schema(
            Some(JsonModel::Str(s)),
        ) == requested_schema(Some(JsonModel::Object(p))),
{
}

/// Without braces, what is looked at reaches from the first bracket to the last.
proof fn a_list_is_cut_out(raw: Seq<char>, start: int, end: int)
    requires
        0 <= start < end < raw.len(),
        raw[start] == '[',
        raw[end] == ']',
        forall|i: int| 0 <= i < start ==> raw[i] != '[',
        forall|i: int| end < i < raw.len() ==> raw[i] != ']',
        forall|i: int| 0 <= i < raw.len() ==> raw[i] != '{',
    ensures
        outermost(raw) == raw.subrange(start, end + 1),
{
    text::find_from_is_first(raw, seq!['{'], 0);
    if let Some(i) = text::first_of(raw, '{') {
        assert(text::occurs_at(raw, seq!['{'], i));
        assert(raw.subrange(i, i + 1)[0] == raw[i]);
    }
    text::find_from_is_first(raw, seq!['['], 0);
    assert(raw.subrange(start, start + 1) =~= seq!['[']);
    assert(text::occurs_at(raw, seq!['['], start));
    if let Some(i) = text::first_of(raw, '[') {
        assert(text::occurs_at(raw, seq!['['], i));
        assert(raw.subrange(i, i + 1)[0] == raw[i]);
    }
    text::last_of_is_last(raw, ']');
}

/// Of an answer without braces the list in it is looked at, from its first bracket to its
/// last.
pub proof fn a_list_is_found_in_prose(before: Seq<char>, list: Seq<char>, after: Seq<char>)
    requires
        list.len() >= 2,
        list[0] == '[',
        list.last() == ']',
        forall|i: int| 0 <= i < before.len() ==> before[i] != '[' && before[i] != '{',
        forall|i: int| 0 <= i < list.len() ==> list[i] != '{',
        forall|i: int| 0 <= i < after.len() ==> after[i] != ']' && after[i] != '{',
        text::trim(before + list + after) == before + list + after,
        !text::starts_with(before + list + after, "```"@),
    ensures
        candidate(before + list + after) == list,
{
    let raw = before + list + after;
    let start = before.len() as int;
    let end = before.len() + list.len() - 1;
    a_list_is_cut_out(raw, start, end);
    assert(raw.subrange(start, end + 1) =~= list);
}

/// What a fence encloses is looked at without the line that names the language, where it has
/// one; otherwise all of it is.
pub proof fn the_language_is_left_out(answer: Seq<char>, i: int)
    requires
        text::starts_with(text::trim(answer), "```"@),
    ensures
        ({
            let inner = fenced(text::trim(answer));
            let named = text::starts_with(text::lowercased(inner), "json\n"@);
            &&& !named ==> candidate(answer) == inner
            &&& named && 0 <= i < inner.len() && inner[i] == '\n' && (forall|j: int|
                0 <= j < i ==> inner[j] != '\n') ==> candidate(answer) == inner.skip(i + 1)
        }),
{
    let inner = fenced(text::trim(answer));
    if 0 <= i < inner.len() && inner[i] == '\n' && (forall|j: int|
        0 <= j < i ==> inner[j] != '\n') {
        text::find_from_is_first(inner, seq!['\n'], 0);
        assert(inner.subrange(i, i + 1) =~= seq!['\n']);
        assert(text::occurs_at(inner, seq!['\n'], i));
        if let Some(k) = text::first_of(inner, '\n') {
            assert(text::occurs_at(inner, seq!['\n'], k));
            assert(inner.subrange(k, k + 1)[0] == inner[k]);
        }
    }
}

} // verus!

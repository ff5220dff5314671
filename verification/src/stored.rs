//! The forms in which runs and sessions are stored.
//!
//! A value is written as a JSON object with a field for each of its parts. What is read
//! back may have fields that are not known, and may lack those that have a default.
use vstd::prelude::*;

use crate::agent_loop::types;
use crate::agent_loop::types::{AgentState, StateModel};
use crate::context::state::{CompressionStateSnapshot, SnapshotModel};
use crate::errors::LoomError;
use crate::ids;
use crate::ids::{id_to_text, parse_id};
use crate::json;
use crate::json::codec;
use crate::json::codec::parse;
use crate::json::{add_field, Json, JsonModel};
use crate::llm;
use crate::llm::{ChatMessage, MessageModel, Role, ToolCall, ToolCallModel};
use crate::scope::{MemoryScope, ScopeModel};
use crate::session::{RecordModel, SessionRecord};
use crate::text::same_text;

verus! {

broadcast use {
    crate::seqs::group_views,
    crate::json::items_model_push,
    crate::json::fields_model_push,
};

// ---------- plain values ----------

/// An optional text that is read: null or nothing is none.
pub open spec fn read_opt_text(j: Option<JsonModel>) -> Option<Option<Seq<char>>> {
    match j {
        None => Some(None),
        Some(JsonModel::Null) => Some(None),
        Some(JsonModel::Str(s)) => Some(Some(s)),
        _ => None,
    }
}

/// An optional text that is read.
fn take_opt_text(j: Option<&Json>) -> (r: Option<Option<String>>)
    ensures
        r.deep_view() == read_opt_text(j.deep_view()),
{
    match j {
        None => Some(None),
        Some(v) => match v {
            Json::Null => Some(None),
            Json::Str(s) => Some(Some(s.clone())),
            _ => None,
        },
    }
}

/// A count that is read, of at most `max`.
pub open spec fn read_count(j: JsonModel, max: int) -> Option<int> {
    match j {
        JsonModel::Int(i) => if 0 <= i <= max {
            Some(i)
        } else {
            None
        },
        _ => None,
    }
}

/// A count that is read, of at most `max`.
fn take_count(j: &Json, max: u64) -> (r: Option<u64>)
    ensures
        match r {
            Some(n) => read_count(j@, max as int) == Some(n as int) && n <= max,
            None => read_count(j@, max as int) is None,
        },
{
    match j {
        Json::Int(i) => if *i >= 0 && *i as u64 <= max {
            Some(*i as u64)
        } else {
            None
        },
        Json::Large(u) => if *u <= max {
            Some(*u)
        } else {
            None
        },
        _ => None,
    }
}

/// Texts that are read.
pub open spec fn read_texts(j: JsonModel) -> Option<Seq<Seq<char>>> {
    match j {
        JsonModel::Array(a) => if forall|i: int|
            0 <= i < a.len() ==> (#[trigger] a[i]).as_str() is Some {
            Some(Seq::new(a.len(), |i: int| a[i].as_str()->0))
        } else {
            None
        },
        _ => None,
    }
}

/// Texts that are read.
fn take_texts(j: &Json) -> (r: Option<Vec<String>>)
    ensures
        r.deep_view() == read_texts(j@),
{
    proof {
        json::model_of_parts(*j);
    }
    match j {
        Json::Array(a) => {
            let ghost all = json::items_model(a@);
            let mut out: Vec<String> = Vec::new();
            let mut i: usize = 0;
            while i < a.len()
                invariant
                    i <= a@.len(),
                    all == json::items_model(a@),
                    j@ == JsonModel::Array(all),
                    out@.len() == i,
                    forall|k: int|
                        0 <= k < i ==> (#[trigger] all[k]).as_str() == Some(out@[k]@),
                decreases a@.len() - i,
            {
                match a[i].as_str() {
                    Some(s) => {
                        out.push(String::from_str(s));
                    },
                    None => {
                        assert(all[i as int].as_str() is None);
                        return None;
                    },
                }
                i += 1;
            }
            assert(out.deep_view() =~= read_texts(j@)->0);
            Some(out)
        },
        _ => None,
    }
}

/// The texts of an optional field; none where it is not there.
pub open spec fn read_texts_or_none(j: Option<JsonModel>) -> Option<Seq<Seq<char>>> {
    match j {
        None => Some(Seq::empty()),
        Some(v) => read_texts(v),
    }
}

/// The texts of an optional field.
fn take_texts_or_none(j: Option<&Json>) -> (r: Option<Vec<String>>)
    ensures
        r.deep_view() == read_texts_or_none(j.deep_view()),
{
    match j {
        None => {
            let v: Vec<String> = Vec::new();
            assert(v.deep_view() =~= Seq::<Seq<char>>::empty());
            Some(v)
        },
        Some(v) => take_texts(v),
    }
}

/// The field at a place is found by its name, where no field before has that name.
proof fn field_at(o: Seq<(Seq<char>, JsonModel)>, k: int)
    requires
        0 <= k < o.len(),
        forall|j: int| 0 <= j < k ==> (#[trigger] o[j]).0 != o[k].0,
    ensures
        json::field_of(o, o[k].0) == Some(o[k].1),
{
    json::key_from_bounds(o, o[k].0, 0);
}

/// Texts are read back as they were written.
proof fn texts_are_read_back(v: Seq<Seq<char>>)
    ensures
        read_texts(json::str_array_model(v)) == Some(v),
{
    let a = json::str_array_model(v)->Array_0;
    assert forall|i: int| 0 <= i < a.len() implies (#[trigger] a[i]).as_str() == Some(v[i]) by {}
    assert(read_texts(json::str_array_model(v))->0 =~= v);
}

// ---------- messages ----------

/// A role by its name.
pub open spec fn read_role(j: JsonModel) -> Option<Role> {
    match j.as_str() {
        Some(s) => if s == "system"@ {
            Some(Role::System)
        } else if s == "user"@ {
            Some(Role::User)
        } else if s == "assistant"@ {
            Some(Role::Assistant)
        } else if s == "tool"@ {
            Some(Role::Tool)
        } else {
            None
        },
        None => None,
    }
}

/// A role by its name.
fn take_role(j: &Json) -> (r: Option<Role>)
    ensures
        r == read_role(j@),
{
    match j.as_str() {
        Some(s) => if same_text(s, "system") {
            Some(Role::System)
        } else if same_text(s, "user") {
            Some(Role::User)
        } else if same_text(s, "assistant") {
            Some(Role::Assistant)
        } else if same_text(s, "tool") {
            Some(Role::Tool)
        } else {
            None
        },
        None => None,
    }
}

/// A call of a tool as JSON.
pub open spec fn call_json(c: ToolCallModel) -> JsonModel {
    JsonModel::Object(
        seq![
            ("id"@, JsonModel::Str(c.id)),
            ("name"@, JsonModel::Str(c.name)),
            ("arguments"@, c.arguments),
        ],
    )
}

/// A call of a tool that is read. One without arguments has null for them.
pub open spec fn read_call(j: JsonModel) -> Option<ToolCallModel> {
    match (j.at("id"@), j.at("name"@)) {
        (JsonModel::Str(id), JsonModel::Str(name)) => Some(
            ToolCallModel { id, name, arguments: j.at("arguments"@) },
        ),
        _ => None,
    }
}

/// A call of a tool as JSON.
fn make_call(c: &ToolCall) -> (r: Json)
    ensures
        r@ == call_json(c@),
{
    let mut o: Vec<(String, Json)> = Vec::new();
    add_field(&mut o, "id", Json::string(c.id.as_str()));
    add_field(&mut o, "name", Json::string(c.name.as_str()));
    add_field(&mut o, "arguments", c.arguments.clone());
    let r = Json::object(o);
    assert(r@->Object_0 =~= call_json(c@)->Object_0);
    r
}

/// A call of a tool that is read.
fn take_call(j: &Json) -> (r: Option<ToolCall>)
    ensures
        r.deep_view() == read_call(j@),
{
    let id = match j.str_field("id") {
        Some(s) => String::from_str(s),
        None => {
            return None;
        },
    };
    let name = match j.str_field("name") {
        Some(s) => String::from_str(s),
        None => {
            return None;
        },
    };
    let arguments = match j.get("arguments") {
        Some(v) => v.clone(),
        None => Json::Null,
    };
    Some(ToolCall { id, name, arguments })
}

/// A call is read back as it was written.
proof fn a_call_is_read_back(c: ToolCallModel)
    ensures
        read_call(call_json(c)) == Some(c),
{
    let o = call_json(c)->Object_0;
    reveal_strlit("id");
    reveal_strlit("name");
    reveal_strlit("arguments");
    assert("id"@.len() == 2 && "name"@.len() == 4 && "arguments"@.len() == 9);
    field_at(o, 0);
    field_at(o, 1);
    field_at(o, 2);
}

/// Calls as JSON.
pub open spec fn calls_json(calls: Option<Seq<ToolCallModel>>) -> JsonModel {
    match calls {
        None => JsonModel::Null,
        Some(v) => JsonModel::Array(Seq::new(v.len(), |i: int| call_json(v[i]))),
    }
}

/// Calls that are read: null or nothing is none.
pub open spec fn read_calls(j: Option<JsonModel>) -> Option<Option<Seq<ToolCallModel>>> {
    match j {
        None => Some(None),
        Some(JsonModel::Null) => Some(None),
        Some(JsonModel::Array(a)) => if forall|i: int|
            0 <= i < a.len() ==> read_call(#[trigger] a[i]) is Some {
            Some(Some(Seq::new(a.len(), |i: int| read_call(a[i])->0)))
        } else {
            None
        },
        _ => None,
    }
}

/// Calls as JSON.
fn make_calls(calls: &Option<Vec<ToolCall>>) -> (r: Json)
    ensures
        r@ == calls_json(calls.deep_view()),
{
    match calls {
        None => Json::Null,
        Some(v) => {
            let mut items: Vec<Json> = Vec::new();
            let mut i: usize = 0;
            while i < v.len()
                invariant
                    i <= v@.len(),
                    items@.len() == i,
                    forall|k: int| 0 <= k < i ==> (#[trigger] items@[k])@ == call_json(v@[k]@),
                decreases v@.len() - i,
            {
                items.push(make_call(&v[i]));
                i += 1;
            }
            assert(json::items_model(items@) =~= calls_json(calls.deep_view())->Array_0);
            Json::array(items)
        },
    }
}

/// Calls that are read.
fn take_calls(j: Option<&Json>) -> (r: Option<Option<Vec<ToolCall>>>)
    ensures
        r.deep_view() == read_calls(j.deep_view()),
{
    match j {
        None => Some(None),
        Some(v) => {
            proof {
                json::model_of_parts(*v);
            }
            match v {
                Json::Null => Some(None),
                Json::Array(a) => {
                    let ghost all = json::items_model(a@);
                    let mut out: Vec<ToolCall> = Vec::new();
                    let mut i: usize = 0;
                    while i < a.len()
                        invariant
                            i <= a@.len(),
                            all == json::items_model(a@),
                            j.deep_view() == Some(JsonModel::Array(all)),
                            out@.len() == i,
                            forall|k: int|
                                0 <= k < i ==> read_call(#[trigger] all[k]) == Some(out@[k]@),
                        decreases a@.len() - i,
                    {
                        match take_call(&a[i]) {
                            Some(c) => {
                                out.push(c);
                            },
                            None => {
                                assert(read_call(all[i as int]) is None);
                                return None;
                            },
                        }
                        i += 1;
                    }
                    assert(out.deep_view() =~= read_calls(j.deep_view())->0->0);
                    Some(Some(out))
                },
                _ => None,
            }
        },
    }
}

/// Calls are read back as they were written.
proof fn calls_are_read_back(calls: Option<Seq<ToolCallModel>>)
    ensures
        read_calls(Some(calls_json(calls))) == Some(calls),
{
    if let Some(v) = calls {
        let a = calls_json(calls)->Array_0;
        assert forall|i: int| 0 <= i < a.len() implies read_call(#[trigger] a[i]) == Some(v[i]) by {
            a_call_is_read_back(v[i]);
        }
        assert(read_calls(Some(calls_json(calls)))->0->0 =~= v);
    }
}

/// A message as JSON.
pub open spec fn message_json(m: MessageModel) -> JsonModel {
    JsonModel::Object(
        seq![
            ("role"@, JsonModel::Str(llm::role_name(m.role))),
            ("content"@, json::opt_str_model(m.content)),
            ("tool_calls"@, calls_json(m.tool_calls)),
            ("tool_call_id"@, json::opt_str_model(m.tool_call_id)),
        ],
    )
}

/// A message that is read.
pub open spec fn read_message(j: JsonModel) -> Option<MessageModel> {
    match (
        read_role(j.at("role"@)),
        read_opt_text(j.get("content"@)),
        read_calls(j.get("tool_calls"@)),
        read_opt_text(j.get("tool_call_id"@)),
    ) {
        (Some(role), Some(content), Some(tool_calls), Some(tool_call_id)) => Some(
            MessageModel { role, content, tool_calls, tool_call_id },
        ),
        _ => None,
    }
}

impl ChatMessage {
    /// The message as JSON.
    pub fn to_json(&self) -> (r: Json)
        ensures
            r@ == message_json(self@),
    {
        let mut o: Vec<(String, Json)> = Vec::new();
        add_field(&mut o, "role", Json::string(self.role.name()));
        add_field(&mut o, "content", Json::opt_str(&self.content));
        add_field(&mut o, "tool_calls", make_calls(&self.tool_calls));
        add_field(&mut o, "tool_call_id", Json::opt_str(&self.tool_call_id));
        let r = Json::object(o);
        assert(r@->Object_0 =~= message_json(self@)->Object_0);
        r
    }

    /// The message that a JSON value stands for, where it stands for one.
    pub fn from_json(j: &Json) -> (r: Option<Self>)
        ensures
            r.deep_view() == read_message(j@),
    {
        let role = match j.get("role") {
            Some(v) => take_role(v),
            None => None,
        };
        let content = take_opt_text(j.get("content"));
        let tool_calls = take_calls(j.get("tool_calls"));
        let tool_call_id = take_opt_text(j.get("tool_call_id"));
        match (role, content, tool_calls, tool_call_id) {
            (Some(role), Some(content), Some(tool_calls), Some(tool_call_id)) => Some(
                ChatMessage { role, content, tool_calls, tool_call_id },
            ),
            _ => None,
        }
    }
}

/// A message is read back as it was written.
pub proof fn a_message_is_read_back(m: MessageModel)
    ensures
        read_message(message_json(m)) == Some(m),
{
    let o = message_json(m)->Object_0;
    reveal_strlit("role");
    reveal_strlit("content");
    reveal_strlit("tool_calls");
    reveal_strlit("tool_call_id");
    reveal_strlit("system");
    reveal_strlit("user");
    reveal_strlit("assistant");
    reveal_strlit("tool");
    assert("role"@.len() == 4 && "content"@.len() == 7 && "tool_calls"@.len() == 10
        && "tool_call_id"@.len() == 12);
    assert("system"@.len() == 6 && "assistant"@.len() == 9 && "user"@[0] == 'u' && "tool"@[0]
        == 't');
    field_at(o, 0);
    field_at(o, 1);
    field_at(o, 2);
    field_at(o, 3);
    calls_are_read_back(m.tool_calls);
}

/// Messages as JSON.
pub open spec fn messages_json(msgs: Seq<MessageModel>) -> JsonModel {
    JsonModel::Array(Seq::new(msgs.len(), |i: int| message_json(msgs[i])))
}

/// Messages that are read.
pub open spec fn read_messages(j: JsonModel) -> Option<Seq<MessageModel>> {
    match j {
        JsonModel::Array(a) => if forall|i: int|
            0 <= i < a.len() ==> read_message(#[trigger] a[i]) is Some {
            Some(Seq::new(a.len(), |i: int| read_message(a[i])->0))
        } else {
            None
        },
        _ => None,
    }
}

/// Messages as JSON.
fn make_messages(msgs: &[ChatMessage]) -> (r: Json)
    ensures
        r@ == messages_json(msgs.deep_view()),
{
    let mut items: Vec<Json> = Vec::new();
    let mut i: usize = 0;
    while i < msgs.len()
        invariant
            i <= msgs@.len(),
            items@.len() == i,
            forall|k: int| 0 <= k < i ==> (#[trigger] items@[k])@ == message_json(msgs@[k]@),
        decreases msgs@.len() - i,
    {
        items.push(msgs[i].to_json());
        i += 1;
    }
    assert(json::items_model(items@) =~= messages_json(msgs.deep_view())->Array_0);
    Json::array(items)
}

/// Messages that are read.
fn take_messages(j: &Json) -> (r: Option<Vec<ChatMessage>>)
    ensures
        r.deep_view() == read_messages(j@),
{
    proof {
        json::model_of_parts(*j);
    }
    match j {
        Json::Array(a) => {
            let ghost all = json::items_model(a@);
            let mut out: Vec<ChatMessage> = Vec::new();
            let mut i: usize = 0;
            while i < a.len()
                invariant
                    i <= a@.len(),
                    all == json::items_model(a@),
                    j@ == JsonModel::Array(all),
                    out@.len() == i,
                    forall|k: int|
                        0 <= k < i ==> read_message(#[trigger] all[k]) == Some(out@[k]@),
                decreases a@.len() - i,
            {
                match ChatMessage::from_json(&a[i]) {
                    Some(m) => {
                        out.push(m);
                    },
                    None => {
                        assert(read_message(all[i as int]) is None);
                        return None;
                    },
                }
                i += 1;
            }
            assert(out.deep_view() =~= read_messages(j@)->0);
            Some(out)
        },
        _ => None,
    }
}

/// Messages are read back as they were written.
pub proof fn messages_are_read_back(msgs: Seq<MessageModel>)
    ensures
        read_messages(messages_json(msgs)) == Some(msgs),
{
    let a = messages_json(msgs)->Array_0;
    assert forall|i: int| 0 <= i < a.len() implies read_message(#[trigger] a[i]) == Some(
        msgs[i],
    ) by {
        a_message_is_read_back(msgs[i]);
    }
    assert(read_messages(messages_json(msgs))->0 =~= msgs);
}

// ---------- the state of compression ----------

/// An optional count as JSON.
pub open spec fn opt_count_json(n: Option<u64>) -> JsonModel {
    match n {
        Some(n) => JsonModel::Int(n as int),
        None => JsonModel::Null,
    }
}

/// An optional count that is read: null or nothing is none.
pub open spec fn read_opt_count(j: Option<JsonModel>) -> Option<Option<u64>> {
    match j {
        None => Some(None),
        Some(JsonModel::Null) => Some(None),
        Some(v) => match read_count(v, u64::MAX as int) {
            Some(n) => Some(Some(n as u64)),
            None => None,
        },
    }
}

/// An optional count that is read.
fn take_opt_count(j: Option<&Json>) -> (r: Option<Option<u64>>)
    ensures
        r == read_opt_count(j.deep_view()),
{
    match j {
        None => Some(None),
        Some(v) => if v.is_null() {
            Some(None)
        } else {
            match take_count(v, u64::MAX) {
                Some(n) => Some(Some(n)),
                None => None,
            }
        },
    }
}

/// The count of an optional field; zero where it is not there.
pub open spec fn read_count_or_zero(j: Option<JsonModel>, max: int) -> Option<int> {
    match j {
        None => Some(0),
        Some(v) => read_count(v, max),
    }
}

/// The count of an optional field.
fn take_count_or_zero(j: Option<&Json>, max: u64) -> (r: Option<u64>)
    ensures
        match r {
            Some(n) => read_count_or_zero(j.deep_view(), max as int) == Some(n as int) && n
                <= max,
            None => read_count_or_zero(j.deep_view(), max as int) is None,
        },
{
    match j {
        None => Some(0),
        Some(v) => take_count(v, max),
    }
}

/// The state of compression as JSON.
pub open spec fn snapshot_json(s: SnapshotModel) -> JsonModel {
    JsonModel::Object(
        seq![
            ("previous_summary"@, json::opt_str_model(s.previous_summary)),
            ("cooldown_remaining_secs"@, opt_count_json(s.cooldown_remaining_secs)),
            ("consecutive_failures"@, JsonModel::Int(s.consecutive_failures)),
            ("terminal_failure"@, JsonModel::Bool(s.terminal_failure)),
        ],
    )
}

/// A truth value that is read; false where it is not there.
pub open spec fn read_flag(j: Option<JsonModel>) -> Option<bool> {
    match j {
        None => Some(false),
        Some(v) => v.as_bool(),
    }
}

/// The state of compression that is read.
pub open spec fn read_snapshot(j: JsonModel) -> Option<SnapshotModel> {
    match (
        read_opt_text(j.get("previous_summary"@)),
        read_opt_count(j.get("cooldown_remaining_secs"@)),
        read_count_or_zero(j.get("consecutive_failures"@), usize::MAX as int),
        read_flag(j.get("terminal_failure"@)),
    ) {
        (Some(previous_summary), Some(cooldown), Some(failures), Some(terminal)) => if j is Object {
            Some(
                SnapshotModel {
                    previous_summary,
                    cooldown_remaining_secs: cooldown,
                    consecutive_failures: failures,
                    terminal_failure: terminal,
                },
            )
        } else {
            None
        },
        _ => None,
    }
}

/// The state of compression as JSON.
fn make_snapshot(s: &CompressionStateSnapshot) -> (r: Json)
    ensures
        r@ == snapshot_json(s@),
{
    let cooldown = match s.cooldown_remaining_secs {
        Some(n) => Json::count(n),
        None => Json::Null,
    };
    let mut o: Vec<(String, Json)> = Vec::new();
    add_field(&mut o, "previous_summary", Json::opt_str(&s.previous_summary));
    add_field(&mut o, "cooldown_remaining_secs", cooldown);
    add_field(&mut o, "consecutive_failures", Json::count(s.consecutive_failures as u64));
    add_field(&mut o, "terminal_failure", Json::Bool(s.terminal_failure));
    let r = Json::object(o);
    assert(r@->Object_0 =~= snapshot_json(s@)->Object_0);
    r
}

/// The state of compression that is read.
fn take_snapshot(j: &Json) -> (r: Option<CompressionStateSnapshot>)
    ensures
        r.deep_view() == read_snapshot(j@),
{
    let is_object = match j {
        Json::Object(_) => true,
        _ => false,
    };
    if !is_object {
        return None;
    }
    let previous_summary = take_opt_text(j.get("previous_summary"));
    let cooldown = take_opt_count(j.get("cooldown_remaining_secs"));
    let failures = take_count_or_zero(j.get("consecutive_failures"), usize::MAX as u64);
    let terminal = match j.get("terminal_failure") {
        None => Some(false),
        Some(v) => v.as_bool(),
    };
    match (previous_summary, cooldown, failures, terminal) {
        (Some(previous_summary), Some(cooldown), Some(failures), Some(terminal)) => Some(
            CompressionStateSnapshot {
                previous_summary,
                cooldown_remaining_secs: cooldown,
                consecutive_failures: failures as usize,
                terminal_failure: terminal,
            },
        ),
        _ => None,
    }
}

/// The state of compression is read back as it was written.
proof fn a_snapshot_is_read_back(s: SnapshotModel)
    requires
        0 <= s.consecutive_failures <= usize::MAX,
    ensures
        read_snapshot(snapshot_json(s)) == Some(s),
{
    let o = snapshot_json(s)->Object_0;
    reveal_strlit("previous_summary");
    reveal_strlit("cooldown_remaining_secs");
    reveal_strlit("consecutive_failures");
    reveal_strlit("terminal_failure");
    assert("previous_summary"@[0] == 'p' && "terminal_failure"@[0] == 't');
    assert("cooldown_remaining_secs"@.len() == 23 && "consecutive_failures"@.len() == 20);
    assert("cooldown_remaining_secs"@[0] == 'c' && "consecutive_failures"@[0] == 'c');
    field_at(o, 0);
    field_at(o, 1);
    field_at(o, 2);
    field_at(o, 3);
}

/// The state of compression of an optional field: null or nothing is none.
pub open spec fn read_opt_snapshot(j: Option<JsonModel>) -> Option<Option<SnapshotModel>> {
    match j {
        None => Some(None),
        Some(JsonModel::Null) => Some(None),
        Some(v) => match read_snapshot(v) {
            Some(s) => Some(Some(s)),
            None => None,
        },
    }
}

/// The state of compression of an optional field.
fn take_opt_snapshot(j: Option<&Json>) -> (r: Option<Option<CompressionStateSnapshot>>)
    ensures
        r.deep_view() == read_opt_snapshot(j.deep_view()),
{
    match j {
        None => Some(None),
        Some(v) => if v.is_null() {
            Some(None)
        } else {
            match take_snapshot(v) {
                Some(s) => Some(Some(s)),
                None => None,
            }
        },
    }
}

// ---------- scopes ----------

/// The scope that a text holds, where it holds one.
pub open spec fn read_scope(t: Seq<char>) -> Option<ScopeModel> {
    match codec::parsed(t) {
        Ok(j) => match (read_opt_text(j.get("tenant_id"@)), read_opt_text(j.get("user_id"@))) {
            (Some(tenant), Some(user)) => if j is Object {
                Some((tenant, user))
            } else {
                None
            },
            _ => None,
        },
        Err(_) => None,
    }
}

/// The scope that a text holds, where it holds one.
pub fn scope_of_text(t: &str) -> (r: Option<MemoryScope>)
    ensures
        match r {
            Some(s) => read_scope(t@) == Some(s@),
            None => read_scope(t@) is None,
        },
{
    let j = match parse(t) {
        Ok(j) => j,
        Err(_) => {
            return None;
        },
    };
    let is_object = match &j {
        Json::Object(_) => true,
        _ => false,
    };
    if !is_object {
        return None;
    }
    match (take_opt_text(j.get("tenant_id")), take_opt_text(j.get("user_id"))) {
        (Some(tenant_id), Some(user_id)) => Some(MemoryScope::new(tenant_id, user_id)),
        _ => None,
    }
}

/// The text of a scope is read back as the scope, where it is read back as the object that
/// was written.
pub(crate) proof fn a_scope_is_read_back(s: ScopeModel, t: Seq<char>)
    requires
        codec::parsed(t) == Ok::<JsonModel, Seq<char>>(types::scope_json(s)),
    ensures
        read_scope(t) == Some(s),
{
    let o = types::scope_json(s)->Object_0;
    reveal_strlit("tenant_id");
    reveal_strlit("user_id");
    assert("tenant_id"@.len() == 9 && "user_id"@.len() == 7);
    field_at(o, 0);
    field_at(o, 1);
}

// ---------- runs ----------

/// An optional identifier as JSON.
pub open spec fn opt_id_json(id: Option<u128>) -> JsonModel {
    match id {
        Some(n) => JsonModel::Str(ids::id_text(n)),
        None => JsonModel::Null,
    }
}

/// An optional identifier that is read: null or nothing is none.
pub open spec fn read_opt_id(j: Option<JsonModel>) -> Option<Option<u128>> {
    match j {
        None => Some(None),
        Some(JsonModel::Null) => Some(None),
        Some(JsonModel::Str(s)) => match ids::id_parsed(s) {
            Some(n) => Some(Some(n)),
            None => None,
        },
        _ => None,
    }
}

/// An optional identifier that is read.
fn take_opt_id(j: Option<&Json>) -> (r: Option<Option<u128>>)
    ensures
        r == read_opt_id(j.deep_view()),
{
    match j {
        None => Some(None),
        Some(v) => match v {
            Json::Null => Some(None),
            Json::Str(s) => match parse_id(s.as_str()) {
                Some(n) => Some(Some(n)),
                None => None,
            },
            _ => None,
        },
    }
}

/// A run as JSON.
pub open spec fn state_json(s: StateModel) -> JsonModel {
    JsonModel::Object(
        seq![
            ("messages"@, messages_json(s.messages)),
            ("iterations"@, JsonModel::Int(s.iterations)),
            ("tool_calls_made"@, JsonModel::Int(s.tool_calls_made)),
            ("tool_names"@, json::str_array_model(s.tool_names)),
            ("toolsets"@, json::str_array_model(s.toolsets)),
            ("parent_toolsets"@, json::str_array_model(s.parent_toolsets)),
            ("delegate_depth"@, JsonModel::Int(s.delegate_depth as int)),
            ("parent_agent_id"@, opt_id_json(s.parent_agent_id)),
            ("scope_json"@, json::opt_str_model(s.scope_json)),
            ("last_user_message"@, json::opt_str_model(s.last_user_message)),
            (
                "compression_state"@,
                match s.compression_state {
                    Some(c) => snapshot_json(c),
                    None => JsonModel::Null,
                },
            ),
        ],
    )
}

/// The part of a run that every stored run has: its messages, the counts of its rounds
/// and calls, and the names of its tools.
pub open spec fn read_needed(j: JsonModel) -> Option<
    (Seq<MessageModel>, int, int, Seq<Seq<char>>),
> {
    match (
        read_messages(j.at("messages"@)),
        read_count(j.at("iterations"@), usize::MAX as int),
        read_count(j.at("tool_calls_made"@), usize::MAX as int),
        read_texts(j.at("tool_names"@)),
    ) {
        (Some(m), Some(i), Some(n), Some(t)) => Some((m, i, n, t)),
        _ => None,
    }
}

/// The part of a run that came to be stored later: its tool sets, depth and parent.
pub open spec fn read_descent(j: JsonModel) -> Option<
    (Seq<Seq<char>>, Seq<Seq<char>>, int, Option<u128>),
> {
    match (
        read_texts_or_none(j.get("toolsets"@)),
        read_texts_or_none(j.get("parent_toolsets"@)),
        read_count_or_zero(j.get("delegate_depth"@), u32::MAX as int),
        read_opt_id(j.get("parent_agent_id"@)),
    ) {
        (Some(t), Some(p), Some(d), Some(a)) => Some((t, p, d, a)),
        _ => None,
    }
}

/// The part of a run that came to be stored later: for whom it runs, what was said last
/// and the state of compression.
pub open spec fn read_surroundings(j: JsonModel) -> Option<
    (Option<Seq<char>>, Option<Seq<char>>, Option<SnapshotModel>),
> {
    match (
        read_opt_text(j.get("scope_json"@)),
        read_opt_text(j.get("last_user_message"@)),
        read_opt_snapshot(j.get("compression_state"@)),
    ) {
        (Some(s), Some(l), Some(c)) => Some((s, l, c)),
        _ => None,
    }
}

/// A run that is read.
pub open spec fn read_state(j: JsonModel) -> Option<StateModel> {
    match (read_needed(j), read_descent(j), read_surroundings(j)) {
        (Some(n), Some(d), Some(s)) => Some(
            StateModel {
                messages: n.0,
                iterations: n.1,
                tool_calls_made: n.2,
                tool_names: n.3,
                toolsets: d.0,
                parent_toolsets: d.1,
                delegate_depth: d.2 as u32,
                parent_agent_id: d.3,
                scope_json: s.0,
                last_user_message: s.1,
                compression_state: s.2,
            },
        ),
        _ => None,
    }
}

/// The fields of a stored run are found by their names.
proof fn fields_of_a_run(s: StateModel)
    ensures
        ({
            let o = state_json(s)->Object_0;
            forall|k: int| 0 <= k < 11 ==> json::field_of(o, (#[trigger] o[k]).0) == Some(o[k].1)
        }),
{
    let o = state_json(s)->Object_0;
    reveal_strlit("messages");
    reveal_strlit("iterations");
    reveal_strlit("tool_calls_made");
    reveal_strlit("tool_names");
    reveal_strlit("toolsets");
    reveal_strlit("parent_toolsets");
    reveal_strlit("delegate_depth");
    reveal_strlit("parent_agent_id");
    reveal_strlit("scope_json");
    reveal_strlit("last_user_message");
    reveal_strlit("compression_state");
    assert("messages"@[0] == 'm' && "iterations"@[0] == 'i' && "tool_calls_made"@[0] == 't'
        && "tool_names"@[0] == 't' && "toolsets"@[0] == 't' && "parent_toolsets"@[0] == 'p'
        && "delegate_depth"@[0] == 'd' && "parent_agent_id"@[0] == 'p' && "scope_json"@[0] == 's'
        && "last_user_message"@[0] == 'l' && "compression_state"@[0] == 'c');
    assert("tool_calls_made"@.len() == 15 && "tool_names"@.len() == 10 && "toolsets"@.len() == 8);
    assert("parent_toolsets"@[7] == 't' && "parent_agent_id"@[7] == 'a');
    field_at(o, 0);
    field_at(o, 1);
    field_at(o, 2);
    field_at(o, 3);
    field_at(o, 4);
    field_at(o, 5);
    field_at(o, 6);
    field_at(o, 7);
    field_at(o, 8);
    field_at(o, 9);
    field_at(o, 10);
}

/// A run is read back as it was written, given that its parent is.
proof fn a_state_is_read_back(s: StateModel)
    requires
        0 <= s.iterations <= usize::MAX,
        0 <= s.tool_calls_made <= usize::MAX,
        s.compression_state matches Some(c) ==> 0 <= c.consecutive_failures <= usize::MAX,
        s.parent_agent_id matches Some(id) ==> ids::id_parsed(ids::id_text(id)) == Some(id),
    ensures
        read_state(state_json(s)) == Some(s),
{
    let j = state_json(s);
    let o = j->Object_0;
    fields_of_a_run(s);
    assert(j.get("messages"@) == Some(o[0].1));
    assert(j.get("iterations"@) == Some(o[1].1));
    assert(j.get("tool_calls_made"@) == Some(o[2].1));
    assert(j.get("tool_names"@) == Some(o[3].1));
    assert(j.get("toolsets"@) == Some(o[4].1));
    assert(j.get("parent_toolsets"@) == Some(o[5].1));
    assert(j.get("delegate_depth"@) == Some(o[6].1));
    assert(j.get("parent_agent_id"@) == Some(o[7].1));
    assert(j.get("scope_json"@) == Some(o[8].1));
    assert(j.get("last_user_message"@) == Some(o[9].1));
    assert(j.get("compression_state"@) == Some(o[10].1));
    messages_are_read_back(s.messages);
    texts_are_read_back(s.tool_names);
    texts_are_read_back(s.toolsets);
    texts_are_read_back(s.parent_toolsets);
    if let Some(c) = s.compression_state {
        a_snapshot_is_read_back(c);
    }
    assert(read_needed(j) == Some((s.messages, s.iterations, s.tool_calls_made, s.tool_names)));
    assert(read_descent(j) == Some(
        (s.toolsets, s.parent_toolsets, s.delegate_depth as int, s.parent_agent_id),
    ));
    assert(read_surroundings(j) == Some((s.scope_json, s.last_user_message, s.compression_state)));
}

impl AgentState {
    /// The run as JSON, from which it is read back as it is.
    pub fn to_json(&self) -> (r: Json)
        ensures
            r@ == state_json(self@),
            read_state(r@) == Some(self@),
    {
        let parent = match self.parent_agent_id {
            Some(id) => Json::Str(id_to_text(id)),
            None => Json::Null,
        };
        let compression = match &self.compression_state {
            Some(c) => make_snapshot(c),
            None => Json::Null,
        };
        let mut o: Vec<(String, Json)> = Vec::new();
        add_field(&mut o, "messages", make_messages(self.messages.as_slice()));
        add_field(&mut o, "iterations", Json::count(self.iterations as u64));
        add_field(&mut o, "tool_calls_made", Json::count(self.tool_calls_made as u64));
        add_field(&mut o, "tool_names", Json::str_array(self.tool_names.as_slice()));
        add_field(&mut o, "toolsets", Json::str_array(self.toolsets.as_slice()));
        add_field(&mut o, "parent_toolsets", Json::str_array(self.parent_toolsets.as_slice()));
        add_field(&mut o, "delegate_depth", Json::count(self.delegate_depth as u64));
        add_field(&mut o, "parent_agent_id", parent);
        add_field(&mut o, "scope_json", Json::opt_str(&self.scope_json));
        add_field(&mut o, "last_user_message", Json::opt_str(&self.last_user_message));
        add_field(&mut o, "compression_state", compression);
        let r = Json::object(o);
        assert(r@->Object_0 =~= state_json(self@)->Object_0);
        proof {
            a_state_is_read_back(self@);
        }
        r
    }

    /// The run that a JSON value stands for; an error where it stands for none.
    pub fn from_json(j: &Json) -> (r: Result<Self, LoomError>)
        ensures
            match r {
                Ok(s) => read_state(j@) == Some(s@),
                Err(e) => read_state(j@) is None && e is Serialization,
            },
    {
        match take_state(j) {
            Some(s) => Ok(s),
            None => Err(LoomError::Serialization(String::from_str("not a stored run"))),
        }
    }
}

/// The field of that name, or null where there is none.
fn at(j: &Json, name: &str) -> (r: Json)
    ensures
        r@ == j@.at(name@),
{
    match j.get(name) {
        Some(v) => v.clone(),
        None => Json::Null,
    }
}

/// A run that is read.
fn take_state(j: &Json) -> (r: Option<AgentState>)
    ensures
        match r {
            Some(s) => read_state(j@) == Some(s@),
            None => read_state(j@) is None,
        },
{
    let messages = match take_messages(&at(j, "messages")) {
        Some(v) => v,
        None => {
            return None;
        },
    };
    let iterations: u64 = match take_count(&at(j, "iterations"), usize::MAX as u64) {
        Some(n) => n,
        None => {
            return None;
        },
    };
    let tool_calls_made: u64 = match take_count(&at(j, "tool_calls_made"), usize::MAX as u64) {
        Some(n) => n,
        None => {
            return None;
        },
    };
    let tool_names = match take_texts(&at(j, "tool_names")) {
        Some(v) => v,
        None => {
            return None;
        },
    };
    let toolsets = match take_texts_or_none(j.get("toolsets")) {
        Some(v) => v,
        None => {
            return None;
        },
    };
    let parent_toolsets = match take_texts_or_none(j.get("parent_toolsets")) {
        Some(v) => v,
        None => {
            return None;
        },
    };
    let delegate_depth: u64 = match take_count_or_zero(j.get("delegate_depth"), u32::MAX as u64) {
        Some(n) => n,
        None => {
            return None;
        },
    };
    let parent_agent_id = match take_opt_id(j.get("parent_agent_id")) {
        Some(v) => v,
        None => {
            return None;
        },
    };
    let scope_json = match take_opt_text(j.get("scope_json")) {
        Some(v) => v,
        None => {
            return None;
        },
    };
    let last_user_message = match take_opt_text(j.get("last_user_message")) {
        Some(v) => v,
        None => {
            return None;
        },
    };
    let compression_state = match take_opt_snapshot(j.get("compression_state")) {
        Some(v) => v,
        None => {
            return None;
        },
    };
    Some(
        AgentState {
            messages,
            iterations: iterations as usize,
            tool_calls_made: tool_calls_made as usize,
            tool_names,
            toolsets,
            parent_toolsets,
            delegate_depth: delegate_depth as u32,
            parent_agent_id,
            scope_json,
            last_user_message,
            compression_state,
        },
    )
}

// ---------- sessions ----------

/// A session as JSON.
pub open spec fn record_json(r: RecordModel) -> JsonModel {
    JsonModel::Object(
        seq![
            ("title"@, JsonModel::Str(r.title)),
            ("messages"@, messages_json(r.messages)),
            ("updated_at"@, JsonModel::Int(r.updated_at as int)),
            ("tenant_id"@, json::opt_str_model(r.tenant_id)),
            ("user_id"@, json::opt_str_model(r.user_id)),
        ],
    )
}

/// A session that is read.
pub open spec fn read_record(j: JsonModel) -> Option<RecordModel> {
    match (
        j.at("title"@).as_str(),
        read_messages(j.at("messages"@)),
        read_count(j.at("updated_at"@), u64::MAX as int),
        read_opt_text(j.get("tenant_id"@)),
        read_opt_text(j.get("user_id"@)),
    ) {
        (Some(title), Some(messages), Some(t), Some(tenant_id), Some(user_id)) => Some(
            RecordModel { title, messages, updated_at: t as u64, tenant_id, user_id },
        ),
        _ => None,
    }
}

/// A session is read back as it was written.
pub proof fn a_record_is_read_back(r: RecordModel)
    ensures
        read_record(record_json(r)) == Some(r),
{
    let j = record_json(r);
    let o = j->Object_0;
    reveal_strlit("title");
    reveal_strlit("messages");
    reveal_strlit("updated_at");
    reveal_strlit("tenant_id");
    reveal_strlit("user_id");
    assert("title"@.len() == 5 && "messages"@.len() == 8 && "updated_at"@.len() == 10
        && "tenant_id"@.len() == 9 && "user_id"@.len() == 7);
    field_at(o, 0);
    field_at(o, 1);
    field_at(o, 2);
    field_at(o, 3);
    field_at(o, 4);
    messages_are_read_back(r.messages);
}

impl SessionRecord {
    /// The session as JSON.
    pub fn to_json(&self) -> (r: Json)
        ensures
            r@ == record_json(self@),
    {
        let mut o: Vec<(String, Json)> = Vec::new();
        add_field(&mut o, "title", Json::string(self.title.as_str()));
        add_field(&mut o, "messages", make_messages(self.messages.as_slice()));
        add_field(&mut o, "updated_at", Json::count(self.updated_at));
        add_field(&mut o, "tenant_id", Json::opt_str(&self.tenant_id));
        add_field(&mut o, "user_id", Json::opt_str(&self.user_id));
        let r = Json::object(o);
        assert(r@->Object_0 =~= record_json(self@)->Object_0);
        r
    }

    /// The session that a JSON value stands for, where it stands for one.
    pub fn from_json(j: &Json) -> (r: Option<Self>)
        ensures
            match r {
                Some(s) => read_record(j@) == Some(s@),
                None => read_record(j@) is None,
            },
    {
        let title = match j.str_field("title") {
            Some(s) => String::from_str(s),
            None => {
                return None;
            },
        };
        let messages = match take_messages(&at(j, "messages")) {
            Some(v) => v,
            None => {
                return None;
            },
        };
        let updated_at: u64 = match take_count(&at(j, "updated_at"), u64::MAX) {
            Some(n) => n,
            None => {
                return None;
            },
        };
        let tenant_id = match take_opt_text(j.get("tenant_id")) {
            Some(v) => v,
            None => {
                return None;
            },
        };
        let user_id = match take_opt_text(j.get("user_id")) {
            Some(v) => v,
            None => {
                return None;
            },
        };
        Some(SessionRecord { title, messages, updated_at, tenant_id, user_id })
    }
}

/// A message is stored by who says it, what is said, the calls that it makes and the call that
/// it answers, each under its name; a call by its identifier, its name and its arguments.
pub proof fn how_a_message_is_stored(m: MessageModel, c: ToolCallModel)
    ensures
        message_json(m).get("role"@) == Some(JsonModel::Str(llm::role_name(m.role))),
        m.content matches Some(t) ==> message_json(m).get("content"@) == Some(JsonModel::Str(t)),
        m.content is None ==> message_json(m).get("content"@) == Some(JsonModel::Null),
        m.tool_call_id matches Some(t) ==> message_json(m).get("tool_call_id"@) == Some(
            JsonModel::Str(t),
        ),
        m.tool_calls matches Some(v) ==> (message_json(m).get("tool_calls"@) matches Some(
            JsonModel::Array(a),
        ) && a.len() == v.len() && forall|i: int|
            0 <= i < v.len() ==> #[trigger] a[i] == call_json(v[i])),
        call_json(c).get("id"@) == Some(JsonModel::Str(c.id)),
        call_json(c).get("name"@) == Some(JsonModel::Str(c.name)),
        call_json(c).get("arguments"@) == Some(c.arguments),
{
    let o = message_json(m)->Object_0;
    reveal_strlit("role");
    reveal_strlit("content");
    reveal_strlit("tool_calls");
    reveal_strlit("tool_call_id");
    assert("role"@.len() == 4);
    assert("content"@.len() == 7);
    assert("tool_calls"@.len() == 10);
    assert("tool_call_id"@.len() == 12);
    json::a_field_is_found(o, 0);
    json::a_field_is_found(o, 1);
    json::a_field_is_found(o, 2);
    json::a_field_is_found(o, 3);
    let p = call_json(c)->Object_0;
    reveal_strlit("id");
    reveal_strlit("name");
    reveal_strlit("arguments");
    assert("id"@.len() == 2);
    assert("name"@.len() == 4);
    assert("arguments"@.len() == 9);
    json::a_field_is_found(p, 0);
    json::a_field_is_found(p, 1);
    json::a_field_is_found(p, 2);
}

/// The names of those who speak, and that they are read as them and no others are.
pub proof fn speakers_have_their_names(role: Role, s: Seq<char>)
    ensures
        llm::role_name(Role::System) == "system"@,
        llm::role_name(Role::User) == "user"@,
        llm::role_name(Role::Assistant) == "assistant"@,
        llm::role_name(Role::Tool) == "tool"@,
        read_role(JsonModel::Str(llm::role_name(role))) == Some(role),
        read_role(JsonModel::Str(s)) matches Some(r) ==> llm::role_name(r) == s,
        s != "system"@ && s != "user"@ && s != "assistant"@ && s != "tool"@ ==> read_role(
            JsonModel::Str(s),
        ) is None,
{
    reveal_strlit("system");
    reveal_strlit("user");
    reveal_strlit("assistant");
    reveal_strlit("tool");
    assert("system"@.len() == 6);
    assert("user"@.len() == 4);
    assert("assistant"@.len() == 9);
    assert("tool"@.len() == 4);
    assert("tool"@[0] == 't');
    assert("user"@[0] == 'u');
}

/// A run is stored with all that belongs to it, each under its name.
pub proof fn how_a_run_is_stored(s: StateModel)
    ensures
        ({
            let j = state_json(s);
            &&& j.get("messages"@) == Some(messages_json(s.messages))
            &&& j.get("iterations"@) == Some(JsonModel::Int(s.iterations))
            &&& j.get("tool_calls_made"@) == Some(JsonModel::Int(s.tool_calls_made))
            &&& j.get("tool_names"@) == Some(json::str_array_model(s.tool_names))
            &&& j.get("toolsets"@) == Some(json::str_array_model(s.toolsets))
            &&& j.get("parent_toolsets"@) == Some(json::str_array_model(s.parent_toolsets))
            &&& j.get("delegate_depth"@) == Some(JsonModel::Int(s.delegate_depth as int))
            &&& s.parent_agent_id matches Some(id) ==> j.get("parent_agent_id"@) == Some(
                JsonModel::Str(ids::id_text(id)),
            )
            &&& s.scope_json matches Some(t) ==> j.get("scope_json"@) == Some(JsonModel::Str(t))
            &&& s.last_user_message matches Some(t) ==> j.get("last_user_message"@) == Some(
                JsonModel::Str(t),
            )
            &&& s.compression_state matches Some(c) ==> j.get("compression_state"@) == Some(
                snapshot_json(c),
            )
        }),
{
    fields_of_a_run(s);
    let o = state_json(s)->Object_0;
    assert(json::field_of(o, o[0].0) == Some(o[0].1));
    assert(json::field_of(o, o[1].0) == Some(o[1].1));
    assert(json::field_of(o, o[2].0) == Some(o[2].1));
    assert(json::field_of(o, o[3].0) == Some(o[3].1));
    assert(json::field_of(o, o[4].0) == Some(o[4].1));
    assert(json::field_of(o, o[5].0) == Some(o[5].1));
    assert(json::field_of(o, o[6].0) == Some(o[6].1));
    assert(json::field_of(o, o[7].0) == Some(o[7].1));
    assert(json::field_of(o, o[8].0) == Some(o[8].1));
    assert(json::field_of(o, o[9].0) == Some(o[9].1));
    assert(json::field_of(o, o[10].0) == Some(o[10].1));
}

/// A run that was stored without what came to be stored later is read with nothing in its
/// place.
pub proof fn what_is_not_stored_is_read_as_nothing(j: JsonModel)
    requires
        read_state(j) is Some,
    ensures
        ({
            let s = read_state(j)->0;
            &&& j.get("toolsets"@) is None ==> s.toolsets.len() == 0
            &&& j.get("parent_toolsets"@) is None ==> s.parent_toolsets.len() == 0
            &&& j.get("delegate_depth"@) is None ==> s.delegate_depth == 0
            &&& j.get("parent_agent_id"@) is None ==> s.parent_agent_id is None
            &&& j.get("scope_json"@) is None ==> s.scope_json is None
            &&& j.get("compression_state"@) is None ==> s.compression_state is None
            &&& read_messages(j.at("messages"@)) == Some(s.messages)
            &&& j.at("iterations"@) == JsonModel::Int(s.iterations)
            &&& j.at("tool_calls_made"@) == JsonModel::Int(s.tool_calls_made)
        }),
{
}

/// A conversation is stored with its title, its messages, its moment and its owner, each
/// under its name; a compression with its summary and its failures.
pub proof fn how_a_conversation_is_stored(r: RecordModel, s: SnapshotModel)
    ensures
        record_json(r).get("title"@) == Some(JsonModel::Str(r.title)),
        record_json(r).get("messages"@) == Some(messages_json(r.messages)),
        record_json(r).get("updated_at"@) == Some(JsonModel::Int(r.updated_at as int)),
        r.tenant_id matches Some(t) ==> record_json(r).get("tenant_id"@) == Some(
            JsonModel::Str(t),
        ),
        r.user_id matches Some(u) ==> record_json(r).get("user_id"@) == Some(JsonModel::Str(u)),
        s.previous_summary matches Some(t) ==> snapshot_json(s).get("previous_summary"@) == Some(
            JsonModel::Str(t),
        ),
        s.cooldown_remaining_secs matches Some(n) ==> snapshot_json(s).get(
            "cooldown_remaining_secs"@,
        ) == Some(JsonModel::Int(n as int)),
        snapshot_json(s).get("consecutive_failures"@) == Some(
            JsonModel::Int(s.consecutive_failures),
        ),
        snapshot_json(s).get("terminal_failure"@) == Some(JsonModel::Bool(s.terminal_failure)),
{
    let o = record_json(r)->Object_0;
    reveal_strlit("title");
    reveal_strlit("messages");
    reveal_strlit("updated_at");
    reveal_strlit("tenant_id");
    reveal_strlit("user_id");
    assert("title"@.len() == 5);
    assert("messages"@.len() == 8);
    assert("updated_at"@.len() == 10);
    assert("tenant_id"@.len() == 9);
    assert("user_id"@.len() == 7);
    json::a_field_is_found(o, 0);
    json::a_field_is_found(o, 1);
    json::a_field_is_found(o, 2);
    json::a_field_is_found(o, 3);
    json::a_field_is_found(o, 4);
    let p = snapshot_json(s)->Object_0;
    reveal_strlit("previous_summary");
    reveal_strlit("cooldown_remaining_secs");
    reveal_strlit("consecutive_failures");
    reveal_strlit("terminal_failure");
    assert("previous_summary"@.len() == 16);
    assert("cooldown_remaining_secs"@.len() == 23);
    assert("consecutive_failures"@.len() == 20);
    assert("terminal_failure"@.len() == 16);
    assert("previous_summary"@[0] == 'p');
    assert("terminal_failure"@[0] == 't');
    json::a_field_is_found(p, 0);
    json::a_field_is_found(p, 1);
    json::a_field_is_found(p, 2);
    json::a_field_is_found(p, 3);
}

/// A compression that was stored without its failures is read as one that had none.
pub proof fn a_compression_is_read_as_stored(j: JsonModel)
    requires
        read_snapshot(j) is Some,
    ensures
        ({
            let s = read_snapshot(j)->0;
            &&& j is Object
            &&& j.get("terminal_failure"@) is None ==> !s.terminal_failure
            &&& j.get("terminal_failure"@) is Some ==> j.at("terminal_failure"@)
                == JsonModel::Bool(s.terminal_failure)
            &&& j.get("consecutive_failures"@) is None ==> s.consecutive_failures == 0
            &&& j.get("consecutive_failures"@) is Some ==> j.at("consecutive_failures"@)
                == JsonModel::Int(s.consecutive_failures as int)
            &&& j.get("previous_summary"@) is None ==> s.previous_summary is None
            &&& j.at("previous_summary"@) matches JsonModel::Str(t) ==> s.previous_summary == Some(
                t,
            )
        }),
{
}

} // verus!

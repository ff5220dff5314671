//! The tools that every agent is told of.
use vstd::prelude::*;

use crate::json;
use crate::json::{add_field, Json, JsonModel};
use crate::llm::{ToolDefinition, ToolDefinitionModel};

verus! {

broadcast use {
    crate::seqs::group_views,
    crate::json::items_model_push,
    crate::json::fields_model_push,
};

/// The fields of a schema: a type and a description.
pub open spec fn typed(kind: Seq<char>, description: Seq<char>) -> Seq<(Seq<char>, JsonModel)> {
    seq![("type"@, JsonModel::Str(kind)), ("description"@, JsonModel::Str(description))]
}

/// The fields of a schema: a type and a description.
fn typed_fields(kind: &str, description: &str) -> (r: Vec<(String, Json)>)
    ensures
        json::fields_model(r@) == typed(kind@, description@),
{
    let mut o: Vec<(String, Json)> = Vec::new();
    add_field(&mut o, "type", Json::string(kind));
    add_field(&mut o, "description", Json::string(description));
    assert(json::fields_model(o@) =~= typed(kind@, description@));
    o
}

/// A schema of a type.
pub open spec fn form(kind: Seq<char>, description: Seq<char>) -> JsonModel {
    JsonModel::Object(typed(kind, description))
}

/// A schema of a type with one more field.
pub open spec fn form_with(
    kind: Seq<char>,
    description: Seq<char>,
    name: Seq<char>,
    value: JsonModel,
) -> JsonModel {
    JsonModel::Object(typed(kind, description).push((name, value)))
}

/// The schema of an object with those fields.
pub open spec fn object_form(
    properties: Seq<(Seq<char>, JsonModel)>,
    required: Seq<Seq<char>>,
) -> JsonModel {
    JsonModel::Object(
        seq![
            ("type"@, JsonModel::Str("object"@)),
            ("properties"@, JsonModel::Object(properties)),
            ("required"@, json::str_array_model(required)),
        ],
    )
}

/// Adds a schema of a type.
fn add_form(o: &mut Vec<(String, Json)>, name: &str, kind: &str, description: &str)
    ensures
        json::fields_model(final(o)@) == json::fields_model(old(o)@).push(
            (name@, form(kind@, description@)),
        ),
{
    add_field(o, name, Json::object(typed_fields(kind, description)));
}

/// Adds a schema of a type with one more field.
fn add_form_with(
    o: &mut Vec<(String, Json)>,
    name: &str,
    kind: &str,
    description: &str,
    extra: &str,
    value: Json,
)
    ensures
        json::fields_model(final(o)@) == json::fields_model(old(o)@).push(
            (name@, form_with(kind@, description@, extra@, value@)),
        ),
{
    let mut f = typed_fields(kind, description);
    add_field(&mut f, extra, value);
    add_field(o, name, Json::object(f));
}

/// The schema of an object with those fields.
fn object_schema(properties: Vec<(String, Json)>, required: Vec<String>) -> (r: Json)
    ensures
        r@ == object_form(json::fields_model(properties@), required.deep_view()),
{
    let ghost p = json::fields_model(properties@);
    let mut o: Vec<(String, Json)> = Vec::new();
    add_field(&mut o, "type", Json::string("object"));
    add_field(&mut o, "properties", Json::object(properties));
    add_field(&mut o, "required", Json::str_array(required.as_slice()));
    let r = Json::object(o);
    assert(r@->Object_0 =~= object_form(p, required.deep_view())->Object_0);
    r
}

/// What the model is told of the tool that starts sub-agents.
pub const SPAWN_DESCRIPTION: &'static str =
    "委派子 Agent 执行任务。支持单 goal 或 tasks 批量委派。子 Agent 可并行执行。顶层 Agent 可设 background=true 异步返回。可用 action=list 列出子 Agent，action=stop 停止指定子 Agent，action=steer 向运行中的子 Agent 追加 steering 消息。";

/// One task of a list of tasks.
pub open spec fn task_form() -> JsonModel {
    object_form(
        seq![
            ("goal"@, form("string"@, "子任务目标"@)),
            ("context"@, form("string"@, "子任务上下文"@)),
            ("output_schema"@, form("object"@, "JSON Schema，验证子任务输出（可选）"@)),
        ],
        seq!["goal"@],
    )
}

/// The schema of texts out of a few, one of which stands where none is given.
pub open spec fn choice_form(
    description: Seq<char>,
    choices: Seq<Seq<char>>,
    default: Seq<char>,
) -> JsonModel {
    JsonModel::Object(
        typed("string"@, description).push(("enum"@, json::str_array_model(choices))).push(
            ("default"@, JsonModel::Str(default)),
        ),
    )
}

/// The arguments of the tool that starts sub-agents.
pub open spec fn spawn_parameters() -> Seq<(Seq<char>, JsonModel)> {
    seq![
        ("goal"@, form("string"@, "单个子 Agent 的目标（与 tasks 二选一）"@)),
        (
            "tasks"@,
            form_with(
                "array"@,
                "批量委派的任务列表，所有子 Agent 并行执行"@,
                "items"@,
                task_form(),
            ),
        ),
        ("context"@, form_with("string"@, "上下文信息"@, "default"@, JsonModel::Str(""@))),
        (
            "output_schema"@,
            form(
                "object"@,
                "JSON Schema，用于验证子 Agent 的最终输出（仅单 goal 时使用；tasks 时在每个 task 内指定）"@,
            ),
        ),
        (
            "toolsets"@,
            form_with(
                "array"@,
                "子 Agent 可用的工具集（仅能使用父 Agent 也拥有的工具集）"@,
                "items"@,
                JsonModel::Object(seq![("type"@, JsonModel::Str("string"@))]),
            ),
        ),
        (
            "isolation"@,
            choice_form(
                "隔离级别"@,
                seq!["coroutine"@, "process"@, "container"@, "wasm"@],
                "coroutine"@,
            ),
        ),
        (
            "background"@,
            form_with(
                "boolean"@,
                "仅顶层 Agent 有效：true 时异步返回 handle，不等待结果"@,
                "default"@,
                JsonModel::Bool(false),
            ),
        ),
        (
            "action"@,
            choice_form(
                "操作类型：spawn(默认)委派任务，list列出子Agent，stop停止子Agent，steer向子Agent追加消息"@,
                seq!["spawn"@, "list"@, "stop"@, "steer"@],
                "spawn"@,
            ),
        ),
        (
            "subagent_id"@,
            form("string"@, "action=stop 或 action=steer 时指定目标子 Agent ID"@),
        ),
        ("message"@, form("string"@, "action=steer 时发送给子 Agent 的 steering 消息"@)),
    ]
}

/// The tool that starts sub-agents.
pub open spec fn spawn_tool() -> ToolDefinitionModel {
    ToolDefinitionModel {
        name: "spawn_agent"@,
        description: SPAWN_DESCRIPTION@,
        parameters: object_form(spawn_parameters(), Seq::empty()),
    }
}

/// Adds the schema of texts out of a few.
fn add_choice(
    o: &mut Vec<(String, Json)>,
    name: &str,
    description: &str,
    choices: Vec<String>,
    default: &str,
)
    ensures
        json::fields_model(final(o)@) == json::fields_model(old(o)@).push(
            (name@, choice_form(description@, choices.deep_view(), default@)),
        ),
{
    let mut f = typed_fields("string", description);
    add_field(&mut f, "enum", Json::str_array(choices.as_slice()));
    add_field(&mut f, "default", Json::string(default));
    add_field(o, name, Json::object(f));
}

/// Four texts.
fn four(a: &str, b: &str, c: &str, d: &str) -> (r: Vec<String>)
    ensures
        r.deep_view() == seq![a@, b@, c@, d@],
{
    let mut v: Vec<String> = Vec::new();
    v.push(String::from_str(a));
    v.push(String::from_str(b));
    v.push(String::from_str(c));
    v.push(String::from_str(d));
    assert(v.deep_view() =~= seq![a@, b@, c@, d@]);
    v
}

/// One text.
fn one(a: &str) -> (r: Vec<String>)
    ensures
        r.deep_view() == seq![a@],
{
    let mut v: Vec<String> = Vec::new();
    v.push(String::from_str(a));
    assert(v.deep_view() =~= seq![a@]);
    v
}

/// One task of a list of tasks.
fn task_schema() -> (r: Json)
    ensures
        r@ == task_form(),
{
    let mut o: Vec<(String, Json)> = Vec::new();
    add_form(&mut o, "goal", "string", "子任务目标");
    add_form(&mut o, "context", "string", "子任务上下文");
    add_form(&mut o, "output_schema", "object", "JSON Schema，验证子任务输出（可选）");
    assert(json::fields_model(o@) =~= seq![
        ("goal"@, form("string"@, "子任务目标"@)),
        ("context"@, form("string"@, "子任务上下文"@)),
        ("output_schema"@, form("object"@, "JSON Schema，验证子任务输出（可选）"@)),
    ]);
    object_schema(o, one("goal"))
}

/// The tool that starts sub-agents.
pub fn spawn_agent_tool_def() -> (r: ToolDefinition)
    ensures
        r@ == spawn_tool(),
{
    let mut o: Vec<(String, Json)> = Vec::new();
    add_form(&mut o, "goal", "string", "单个子 Agent 的目标（与 tasks 二选一）");
    add_form_with(
        &mut o,
        "tasks",
        "array",
        "批量委派的任务列表，所有子 Agent 并行执行",
        "items",
        task_schema(),
    );
    add_form_with(&mut o, "context", "string", "上下文信息", "default", Json::string(""));
    add_form(
        &mut o,
        "output_schema",
        "object",
        "JSON Schema，用于验证子 Agent 的最终输出（仅单 goal 时使用；tasks 时在每个 task 内指定）",
    );
    let mut item: Vec<(String, Json)> = Vec::new();
    add_field(&mut item, "type", Json::string("string"));
    let item = Json::object(item);
    assert(item@->Object_0 =~= seq![("type"@, JsonModel::Str("string"@))]);
    add_form_with(
        &mut o,
        "toolsets",
        "array",
        "子 Agent 可用的工具集（仅能使用父 Agent 也拥有的工具集）",
        "items",
        item,
    );
    add_choice(
        &mut o,
        "isolation",
        "隔离级别",
        four("coroutine", "process", "container", "wasm"),
        "coroutine",
    );
    add_form_with(
        &mut o,
        "background",
        "boolean",
        "仅顶层 Agent 有效：true 时异步返回 handle，不等待结果",
        "default",
        Json::Bool(false),
    );
    add_choice(
        &mut o,
        "action",
        "操作类型：spawn(默认)委派任务，list列出子Agent，stop停止子Agent，steer向子Agent追加消息",
        four("spawn", "list", "stop", "steer"),
        "spawn",
    );
    add_form(
        &mut o,
        "subagent_id",
        "string",
        "action=stop 或 action=steer 时指定目标子 Agent ID",
    );
    add_form(&mut o, "message", "string", "action=steer 时发送给子 Agent 的 steering 消息");
    assert(json::fields_model(o@) =~= spawn_parameters());
    let r = ToolDefinition {
        name: String::from_str("spawn_agent"),
        description: String::from_str(SPAWN_DESCRIPTION),
        parameters: object_schema(o, Vec::new()),
    };
    assert(r@ =~= spawn_tool());
    r
}

/// What the model is told of the tool that asks a human.
pub const INTERRUPT_DESCRIPTION: &'static str =
    "Pause execution and wait for human input. Use when you need human approval, clarification, a decision, or to collect multiple fields of information. The 'value' field is shown to the human. When resumed, the human's response is returned as the tool result.\n\nvalue supports three structured formats:\n\n1) Option buttons (approval/choice): {\"prompt\": \"...\", \"options\": [{\"label\": \"Confirm\", \"value\": {\"approved\": true}}, {\"label\": \"Cancel\", \"value\": {\"approved\": false}}], \"allow_input\": false}. Clicking an option returns its 'value' as resume_value.\n\n2) Free text input: {\"prompt\": \"...\", \"allow_input\": true}.\n\n3) Multi-field form: {\"prompt\": \"...\", \"fields\": [{\"name\": \"...\", \"label\": \"...\", \"type\": \"text|textarea|select|number\", \"required\": true|false, \"placeholder\": \"...\", \"options\": [{\"label\": \"...\", \"value\": \"...\"}]}]}. All field values are submitted as one object as resume_value.\n\nUse short verbs for option labels (Confirm/Cancel/Approve/Reject); the frontend auto-colors them.";

/// What the model is told of what a human is shown.
pub const INTERRUPT_VALUE: &'static str =
    "Content shown to the human. Use one of: {prompt, options, allow_input} for option buttons; {prompt, allow_input:true} for free text; {prompt, fields:[...]} for a multi-field form.";

/// The tool that asks a human.
pub open spec fn interrupt_tool() -> ToolDefinitionModel {
    ToolDefinitionModel {
        name: "interrupt"@,
        description: INTERRUPT_DESCRIPTION@,
        parameters: object_form(
            seq![
                ("value"@, form("object"@, INTERRUPT_VALUE@)),
                (
                    "prompt"@,
                    form("string"@, "A short prompt instructing the human what to do"@),
                ),
            ],
            seq!["value"@],
        ),
    }
}

/// The tool that asks a human: the agent pauses, a human is shown the value, and what the
/// human answers is the result of the call.
pub fn interrupt_tool_def() -> (r: ToolDefinition)
    ensures
        r@ == interrupt_tool(),
{
    let mut o: Vec<(String, Json)> = Vec::new();
    add_form(&mut o, "value", "object", INTERRUPT_VALUE);
    add_form(&mut o, "prompt", "string", "A short prompt instructing the human what to do");
    assert(json::fields_model(o@) =~= seq![
        ("value"@, form("object"@, INTERRUPT_VALUE@)),
        ("prompt"@, form("string"@, "A short prompt instructing the human what to do"@)),
    ]);
    let r = ToolDefinition {
        name: String::from_str("interrupt"),
        description: String::from_str(INTERRUPT_DESCRIPTION),
        parameters: object_schema(o, one("value")),
    };
    assert(r@ =~= interrupt_tool());
    r
}

/// A model is told what it can ask sub-agents for: a goal or a list of tasks, a context, a form
/// of the answer, tool sets, an isolation, whether to wait, an action, and whom it is about;
/// none of these has to be given.
pub proof fn what_can_be_asked_of_sub_agents()
    ensures
        spawn_tool().name == "spawn_agent"@,
        spawn_tool().parameters.at("required"@) == JsonModel::Array(Seq::empty()),
        ({
            let p = spawn_tool().parameters.at("properties"@);
            &&& p.at("goal"@).get("type"@) == Some(JsonModel::Str("string"@))
            &&& p.at("tasks"@).get("type"@) == Some(JsonModel::Str("array"@))
            &&& p.at("context"@).get("type"@) == Some(JsonModel::Str("string"@))
            &&& p.at("output_schema"@).get("type"@) == Some(JsonModel::Str("object"@))
            &&& p.at("toolsets"@).get("type"@) == Some(JsonModel::Str("array"@))
            &&& p.at("isolation"@).get("type"@) == Some(JsonModel::Str("string"@))
            &&& p.at("background"@).get("type"@) == Some(JsonModel::Str("boolean"@))
            &&& p.at("action"@).get("type"@) == Some(JsonModel::Str("string"@))
            &&& p.at("subagent_id"@).get("type"@) == Some(JsonModel::Str("string"@))
            &&& p.at("message"@).get("type"@) == Some(JsonModel::Str("string"@))
            &&& p.at("action"@).get("enum"@) == Some(
                json::str_array_model(seq!["spawn"@, "list"@, "stop"@, "steer"@]),
            )
            &&& p.at("isolation"@).get("enum"@) == Some(
                json::str_array_model(seq!["coroutine"@, "process"@, "container"@, "wasm"@]),
            )
            &&& p.at("background"@).get("default"@) == Some(JsonModel::Bool(false))
            &&& p.at("isolation"@).get("default"@) == Some(JsonModel::Str("coroutine"@))
            &&& p.at("action"@).get("default"@) == Some(JsonModel::Str("spawn"@))
            &&& p.at("context"@).get("default"@) == Some(JsonModel::Str(""@))
            &&& p.at("tasks"@).at("items"@).get("required"@) == Some(
                json::str_array_model(seq!["goal"@]),
            )
        }),
{
    let o = spawn_tool().parameters->Object_0;
    let p = spawn_parameters();
    reveal_strlit("type");
    reveal_strlit("properties");
    reveal_strlit("required");
    reveal_strlit("description");
    reveal_strlit("enum");
    reveal_strlit("default");
    reveal_strlit("items");
    reveal_strlit("goal");
    reveal_strlit("tasks");
    reveal_strlit("context");
    reveal_strlit("output_schema");
    reveal_strlit("toolsets");
    reveal_strlit("isolation");
    reveal_strlit("background");
    reveal_strlit("action");
    reveal_strlit("subagent_id");
    reveal_strlit("message");
    assert("type"@.len() == 4);
    assert("properties"@.len() == 10);
    assert("required"@.len() == 8);
    assert("description"@.len() == 11);
    assert("enum"@.len() == 4);
    assert("default"@.len() == 7);
    assert("items"@.len() == 5);
    assert("goal"@.len() == 4);
    assert("tasks"@.len() == 5);
    assert("context"@.len() == 7);
    assert("output_schema"@.len() == 13);
    assert("toolsets"@.len() == 8);
    assert("isolation"@.len() == 9);
    assert("background"@.len() == 10);
    assert("action"@.len() == 6);
    assert("subagent_id"@.len() == 11);
    assert("message"@.len() == 7);
    assert("background"@[0] == 'b');
    assert("context"@[0] == 'c');
    assert("default"@[0] == 'd');
    assert("description"@[0] == 'd');
    assert("enum"@[0] == 'e');
    assert("goal"@[0] == 'g');
    assert("items"@[0] == 'i');
    assert("message"@[0] == 'm');
    assert("properties"@[0] == 'p');
    assert("required"@[0] == 'r');
    assert("subagent_id"@[0] == 's');
    assert("tasks"@[0] == 't');
    assert("toolsets"@[0] == 't');
    assert("type"@[0] == 't');
    json::a_field_is_found(o, 1);
    json::a_field_is_found(o, 2);
    assert(o[2].1->Array_0 =~= Seq::<JsonModel>::empty());
    json::a_field_is_found(p, 0);
    json::a_field_is_found(p[0].1->Object_0, 0);
    json::a_field_is_found(p, 1);
    json::a_field_is_found(p[1].1->Object_0, 0);
    json::a_field_is_found(p, 2);
    json::a_field_is_found(p[2].1->Object_0, 0);
    json::a_field_is_found(p, 3);
    json::a_field_is_found(p[3].1->Object_0, 0);
    json::a_field_is_found(p, 4);
    json::a_field_is_found(p[4].1->Object_0, 0);
    json::a_field_is_found(p, 5);
    json::a_field_is_found(p[5].1->Object_0, 0);
    json::a_field_is_found(p, 6);
    json::a_field_is_found(p[6].1->Object_0, 0);
    json::a_field_is_found(p, 7);
    json::a_field_is_found(p[7].1->Object_0, 0);
    json::a_field_is_found(p, 8);
    json::a_field_is_found(p[8].1->Object_0, 0);
    json::a_field_is_found(p, 9);
    json::a_field_is_found(p[9].1->Object_0, 0);
    json::a_field_is_found(p[7].1->Object_0, 2);
    json::a_field_is_found(p[5].1->Object_0, 2);
    json::a_field_is_found(p[1].1->Object_0, 2);
    json::a_field_is_found(p[2].1->Object_0, 2);
    json::a_field_is_found(p[6].1->Object_0, 2);
    json::a_field_is_found(p[5].1->Object_0, 3);
    json::a_field_is_found(p[7].1->Object_0, 3);
    json::a_field_is_found(task_form()->Object_0, 2);
}

/// A model that asks a human has to say what the human is shown.
pub proof fn what_a_human_is_asked_with()
    ensures
        interrupt_tool().name == "interrupt"@,
        interrupt_tool().parameters.get("required"@) == Some(
            json::str_array_model(seq!["value"@]),
        ),
        interrupt_tool().parameters.at("properties"@).get("value"@) is Some,
        interrupt_tool().parameters.at("properties"@).get("prompt"@) is Some,
{
    let o = interrupt_tool().parameters->Object_0;
    let p = o[1].1->Object_0;
    reveal_strlit("type");
    reveal_strlit("properties");
    reveal_strlit("required");
    reveal_strlit("value");
    reveal_strlit("prompt");
    assert("type"@.len() == 4);
    assert("properties"@.len() == 10);
    assert("required"@.len() == 8);
    assert("value"@.len() == 5);
    assert("prompt"@.len() == 6);
    json::a_field_is_found(o, 1);
    json::a_field_is_found(o, 2);
    json::a_field_is_found(p, 0);
    json::a_field_is_found(p, 1);
}

} // verus!

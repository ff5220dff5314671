//! What the calls of tools return to the model.
use vstd::prelude::*;

use crate::capability;
use crate::capability::{empty_object, CapabilityExecution};
use crate::errors::LoomError;
use crate::json::codec;
use crate::json::codec::to_text;
use crate::json::{Json, JsonModel};
use crate::llm::{ToolCall, ToolCallModel};
use crate::text;
use crate::text::same_text;

verus! {

/// What a call of a tool returns.
#[derive(Debug, PartialEq, Eq)]
pub struct ToolCallResult {
    pub tool_call_id: String,
    pub name: String,
    pub content: String,
    pub is_error: bool,
}

/// What a call of a tool returns.
#[verifier::ext_equal]
pub struct CallResultModel {
    pub tool_call_id: Seq<char>,
    pub name: Seq<char>,
    pub content: Seq<char>,
    pub is_error: bool,
}

impl View for ToolCallResult {
    type V = CallResultModel;

    open spec fn view(&self) -> CallResultModel {
        CallResultModel {
            tool_call_id: self.tool_call_id@,
            name: self.name@,
            content: self.content@,
            is_error: self.is_error,
        }
    }
}

impl DeepView for ToolCallResult {
    type V = CallResultModel;

    open spec fn deep_view(&self) -> CallResultModel {
        self@
    }
}

/// What a call returns with that content.
pub open spec fn returned(
    call: ToolCallModel,
    content: Seq<char>,
    is_error: bool,
) -> CallResultModel {
    CallResultModel { tool_call_id: call.id, name: call.name, content, is_error }
}

/// What a call returns with that content.
fn give_back(call: &ToolCall, content: String, is_error: bool) -> (r: ToolCallResult)
    ensures
        r@ == returned(call@, content@, is_error),
{
    ToolCallResult {
        tool_call_id: call.id.clone(),
        name: call.name.clone(),
        content,
        is_error,
    }
}

/// The call starts sub-agents.
pub open spec fn is_spawn(call: ToolCallModel) -> bool {
    call.name == "spawn_agent"@
}

/// Whether the call starts sub-agents.
pub fn is_spawn_call(call: &ToolCall) -> (r: bool)
    ensures
        r == is_spawn(call@),
{
    same_text(call.name.as_str(), "spawn_agent")
}

/// What a tool is called with: an object without fields where the model gives nothing.
pub open spec fn call_arguments(call: ToolCallModel) -> JsonModel {
    if call.arguments is Null {
        capability::no_fields()
    } else {
        call.arguments
    }
}

/// What a tool is called with.
pub fn arguments_of(call: &ToolCall) -> (r: Json)
    ensures
        r@ == call_arguments(call@),
{
    if call.arguments.is_null() {
        empty_object()
    } else {
        call.arguments.clone()
    }
}

/// The content of what a capability has come to.
pub open spec fn execution_text(e: CapabilityExecution) -> Seq<char> {
    match e {
        CapabilityExecution::Sync(v) => codec::compact(v@),
        CapabilityExecution::Async { task_id } => "{\"task_id\":\""@ + task_id@ + "\"}"@,
    }
}

/// What a call returns whose tool there is.
pub open spec fn executed(
    call: ToolCallModel,
    outcome: Result<CapabilityExecution, LoomError>,
) -> CallResultModel {
    match outcome {
        Ok(e) => returned(call, execution_text(e), false),
        Err(e) => returned(call, "Error executing tool: "@ + e.text(), true),
    }
}

/// What a call returns whose tool there is.
pub fn executed_result(call: &ToolCall, outcome: Result<CapabilityExecution, LoomError>) -> (r:
    ToolCallResult)
    ensures
        r@ == executed(call@, outcome),
{
    match outcome {
        Ok(e) => {
            let content = match e {
                CapabilityExecution::Sync(v) => to_text(&v),
                CapabilityExecution::Async { task_id } => {
                    let mut s = String::from_str("{\"task_id\":\"");
                    s.append(task_id.as_str());
                    s.append("\"}");
                    s
                },
            };
            give_back(call, content, false)
        },
        Err(e) => {
            let mut s = String::from_str("Error executing tool: ");
            s.append(e.to_text().as_str());
            give_back(call, s, true)
        },
    }
}

/// What a call returns whose tool there is not.
pub fn missing_result(call: &ToolCall, error: &LoomError) -> (r: ToolCallResult)
    ensures
        r@ == returned(call@, "Tool not found: "@ + error.text(), true),
{
    let mut s = String::from_str("Tool not found: ");
    s.append(error.to_text().as_str());
    give_back(call, s, true)
}

/// What a call returns that starts sub-agents.
pub open spec fn spawned(
    call: ToolCallModel,
    outcome: Result<Json, LoomError>,
) -> CallResultModel {
    match outcome {
        Ok(v) => returned(call, codec::compact(v@), false),
        Err(e) => returned(call, "spawn_agent error: "@ + e.text(), true),
    }
}

/// What a call returns that starts sub-agents.
pub fn spawned_result(call: &ToolCall, outcome: Result<Json, LoomError>) -> (r: ToolCallResult)
    ensures
        r@ == spawned(call@, outcome),
{
    match outcome {
        Ok(v) => give_back(call, to_text(&v), false),
        Err(e) => {
            let mut s = String::from_str("spawn_agent error: ");
            s.append(e.to_text().as_str());
            give_back(call, s, true)
        },
    }
}

/// What a call gives back belongs to the call, under its identifier and its name: the value
/// that the tool returns, as text, or the error, which is marked as one.
pub proof fn what_a_call_gives_back(
    call: ToolCallModel,
    v: Json,
    task_id: String,
    e: LoomError,
)
    ensures
        ({
            let ok = executed(call, Ok(CapabilityExecution::Sync(v)));
            let later = executed(call, Ok(CapabilityExecution::Async { task_id }));
            let bad = executed(call, Err(e));
            let child = spawned(call, Ok(v));
            let lost = spawned(call, Err(e));
            &&& ok.tool_call_id == call.id && ok.name == call.name
            &&& ok.content == codec::compact(v@)
            &&& !ok.is_error
            &&& later.tool_call_id == call.id && later.name == call.name
            &&& text::contains(later.content, task_id@)
            &&& !later.is_error
            &&& bad.tool_call_id == call.id && bad.name == call.name
            &&& text::ends_with(bad.content, e.text())
            &&& bad.is_error
            &&& child.tool_call_id == call.id && child.name == call.name
            &&& child.content == codec::compact(v@)
            &&& !child.is_error
            &&& lost.tool_call_id == call.id && lost.name == call.name
            &&& text::ends_with(lost.content, e.text())
            &&& lost.is_error
        }),
{
    broadcast use text::group_parts;

    let later = executed(call, Ok(CapabilityExecution::Async { task_id })).content;
    assert(text::contains(later, task_id@));
    let bad = executed(call, Err(e)).content;
    let lost = spawned(call, Err(e)).content;
    let m = e.text();
    assert(bad.subrange(bad.len() - m.len(), bad.len() as int) =~= m);
    assert(lost.subrange(lost.len() - m.len(), lost.len() as int) =~= m);
}

/// A tool is given the arguments of its call, or an object without fields where there are
/// none; sub-agents are started by one tool alone.
pub proof fn what_a_tool_is_given(call: ToolCallModel)
    ensures
        call.arguments is Null ==> call_arguments(call) == JsonModel::Object(Seq::empty()),
        !(call.arguments is Null) ==> call_arguments(call) == call.arguments,
        is_spawn(call) == (call.name == "spawn_agent"@),
{
}

} // verus!

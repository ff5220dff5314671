//! How a run begins, and what its caller is told.
use vstd::prelude::*;

use crate::agent;
use crate::agent::{AgentErrorKind, AgentOutput};
use crate::agent_loop::types::{AgentRunResult, LoopContext, LoopModel};
use crate::errors::LoomError;
use crate::ids;
use crate::ids::id_to_text;
use crate::llm;
use crate::llm::{clone_texts, ChatMessage, MessageModel, Role};
use crate::text;

verus! {

broadcast use crate::seqs::group_views;

/// The memory of a session is loaded for an agent at the top only: children think for
/// themselves.
pub open spec fn loads_memory(delegate_depth: u32) -> bool {
    delegate_depth == 0
}

/// Whether the memory of a session is loaded.
pub fn should_load_memory(delegate_depth: u32) -> (r: bool)
    ensures
        r == loads_memory(delegate_depth),
{
    delegate_depth == 0
}

/// The first messages of a run: the prompt, what is remembered where anything is, and the
/// goal.
pub open spec fn opening(
    prompt: Seq<char>,
    memory: Seq<char>,
    goal: Seq<char>,
    delegate_depth: u32,
) -> Seq<MessageModel> {
    let first = seq![llm::plain_message(Role::System, prompt)];
    let known = if loads_memory(delegate_depth) && memory.len() > 0 {
        first.push(llm::plain_message(Role::System, memory))
    } else {
        first
    };
    known.push(llm::plain_message(Role::User, "Goal: "@ + goal))
}

/// The first messages of a run.
pub fn opening_messages(prompt: String, memory: String, goal: &str, delegate_depth: u32) -> (r:
    Vec<ChatMessage>)
    ensures
        r.deep_view() == opening(prompt@, memory@, goal@, delegate_depth),
{
    let mut messages: Vec<ChatMessage> = Vec::new();
    let ghost p = prompt@;
    messages.push(ChatMessage::system(prompt));
    assert(messages.deep_view() =~= seq![llm::plain_message(Role::System, p)]);
    if delegate_depth == 0 && memory.as_str().unicode_len() > 0 {
        messages.push(ChatMessage::system(memory));
    }
    let mut g = String::from_str("Goal: ");
    g.append(goal);
    messages.push(ChatMessage::user(g));
    messages
}

/// The messages of a conversation that goes on: nothing is said again, and the user speaks
/// last.
pub fn continued_messages(history: Vec<ChatMessage>, goal: &str) -> (r: Vec<ChatMessage>)
    ensures
        r.deep_view() == history.deep_view().push(llm::plain_message(Role::User, goal@)),
{
    let mut messages = history;
    messages.push(ChatMessage::user(String::from_str(goal)));
    messages
}

/// A run that begins with those messages; its thread is named after the agent.
pub open spec fn new_run(
    messages: Seq<MessageModel>,
    agent_id: u128,
    parent_agent_id: Option<u128>,
    delegate_depth: u32,
    toolsets: Seq<Seq<char>>,
    parent_toolsets: Seq<Seq<char>>,
) -> LoopModel {
    LoopModel {
        messages,
        iterations: 0,
        tool_calls_made: 0,
        tool_names: Seq::empty(),
        thread_id: ids::id_text(agent_id),
        last_checkpoint_id: None,
        agent_id,
        parent_agent_id,
        delegate_depth,
        toolsets,
        parent_toolsets,
    }
}

/// A run that begins with those messages.
pub fn start_run(
    messages: Vec<ChatMessage>,
    agent_id: u128,
    parent_agent_id: Option<u128>,
    delegate_depth: u32,
    toolsets: &[String],
    parent_toolsets: &[String],
) -> (r: LoopContext)
    ensures
        r@ == new_run(
            messages.deep_view(),
            agent_id,
            parent_agent_id,
            delegate_depth,
            toolsets.deep_view(),
            parent_toolsets.deep_view(),
        ),
{
    LoopContext {
        messages,
        iterations: 0,
        tool_calls_made: 0,
        tool_names: Vec::new(),
        thread_id: id_to_text(agent_id),
        last_checkpoint_id: None,
        agent_id,
        parent_agent_id,
        delegate_depth,
        toolsets: clone_texts(toolsets),
        parent_toolsets: clone_texts(parent_toolsets),
    }
}

/// What the caller of a sub-agent is told of its run: an error makes a failure, whose kind
/// is that of its text.
pub fn runner_output(result: Result<AgentRunResult, LoomError>) -> (r: AgentOutput)
    ensures
        match result {
            Ok(x) => r == (AgentOutput {
                summary: x.final_response,
                iterations: x.iterations,
                tool_calls_made: x.tool_calls_made,
                tool_names: x.tool_names,
                success: true,
                error_message: None,
                error_kind: AgentErrorKind::NoError,
                duration_ms: x.duration_ms,
                tool_trace: x.tool_trace,
            }),
            Err(e) => r.summary@.len() == 0 && r.iterations == 0 && r.tool_calls_made == 0
                && r.tool_names@.len() == 0 && !r.success && r.error_message.deep_view() == Some(
                e.text(),
            ) && r.duration_ms == 0 && r.tool_trace is None && r.error_kind
                == agent::error_kind(text::lowercased(e.text()), e.text().len() == 0),
        },
{
    match result {
        Ok(x) => AgentOutput::success_with_meta(
            x.final_response,
            x.iterations,
            x.tool_calls_made,
            x.tool_names,
            x.duration_ms,
            x.tool_trace,
        ),
        Err(e) => {
            let message = e.to_text();
            let kind = AgentErrorKind::from_error_message(message.as_str());
            AgentOutput::failure_with_kind(message, 0, 0, kind)
        },
    }
}

/// A sub-agent is told nothing of what its parent remembers.
pub proof fn children_begin_without_memory(
    prompt: Seq<char>,
    memory: Seq<char>,
    other: Seq<char>,
    goal: Seq<char>,
    delegate_depth: u32,
)
    requires
        delegate_depth > 0,
    ensures
        opening(prompt, memory, goal, delegate_depth) == opening(
            prompt,
            other,
            goal,
            delegate_depth,
        ),
{
}

/// A conversation that goes on keeps all that was said, and the user speaks last.
pub proof fn a_conversation_goes_on(history: Seq<MessageModel>, goal: Seq<char>)
    ensures
        history.push(llm::plain_message(Role::User, goal)).take(history.len() as int) == history,
{
    assert(history.push(llm::plain_message(Role::User, goal)).take(history.len() as int)
        =~= history);
}

/// A run begins with what the agent is told, then with what it remembers where it is not a
/// child and remembers anything, and with its goal at the end.
pub proof fn a_run_begins_with_its_goal(
    prompt: Seq<char>,
    memory: Seq<char>,
    goal: Seq<char>,
    delegate_depth: u32,
)
    ensures
        ({
            let msgs = opening(prompt, memory, goal, delegate_depth);
            &&& msgs.len() >= 2
            &&& msgs[0].role == Role::System
            &&& msgs[0].content == Some(prompt)
            &&& msgs.last().role == Role::User
            &&& msgs.last().content matches Some(t) && text::ends_with(t, goal)
            &&& delegate_depth == 0 && memory.len() > 0 ==> msgs.len() == 3 && msgs[1].role
                == Role::System && msgs[1].content == Some(memory)
            &&& delegate_depth > 0 || memory.len() == 0 ==> msgs.len() == 2
        }),
{
    let t = "Goal: "@ + goal;
    assert(t.subrange(t.len() - goal.len(), t.len() as int) =~= goal);
}

/// A new run has had no rounds and no calls; it has the messages, the parent, the depth and
/// the tools that it is given, and a thread of its own.
pub proof fn a_run_begins_new(
    messages: Seq<MessageModel>,
    agent_id: u128,
    parent_agent_id: Option<u128>,
    delegate_depth: u32,
    toolsets: Seq<Seq<char>>,
    parent_toolsets: Seq<Seq<char>>,
)
    ensures
        ({
            let r = new_run(
                messages,
                agent_id,
                parent_agent_id,
                delegate_depth,
                toolsets,
                parent_toolsets,
            );
            &&& r.messages == messages
            &&& r.iterations == 0
            &&& r.tool_calls_made == 0
            &&& r.tool_names.len() == 0
            &&& r.last_checkpoint_id is None
            &&& r.thread_id == ids::id_text(agent_id)
            &&& r.agent_id == agent_id
            &&& r.parent_agent_id == parent_agent_id
            &&& r.delegate_depth == delegate_depth
            &&& r.toolsets == toolsets
            &&& r.parent_toolsets == parent_toolsets
        }),
{
}

} // verus!

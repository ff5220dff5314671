//! Taking up a run from a checkpoint.
use vstd::prelude::*;

use crate::agent_loop::types;
use crate::agent_loop::types::{
    find_interrupt_call, AgentRunOutcome, AgentRunResultWithHistory, AgentState, EventModel,
    LoopContext, LoopModel, StateModel,
};
use crate::checkpoint::{CheckpointConfig, WhichModel};
use crate::errors;
use crate::errors::{debug_opt_text, LoomError};
use crate::ids;
use crate::ids::{fresh_id, parse_id};
use crate::json::codec;
use crate::json::codec::to_text;
use crate::json::{Json, JsonModel};
use crate::llm;
use crate::llm::{clone_opt, ChatMessage, MessageModel, Role, ToolCall, ToolCallModel};
use crate::scope::{MemoryScope, ScopeModel};
use crate::text::same_text;

verus! {

broadcast use crate::seqs::group_views;

/// What a human answers to a run that has asked.
#[derive(Debug, PartialEq, Eq)]
pub struct ResumeCommand {
    pub thread_id: String,
    pub checkpoint_id: String,
    /// The answer.
    pub resume_value: Json,
}

impl ResumeCommand {
    /// The answer to a checkpoint of a thread.
    pub fn new(thread_id: String, checkpoint_id: String, resume_value: Json) -> (r: Self)
        ensures
            r == (ResumeCommand { thread_id, checkpoint_id, resume_value }),
    {
        ResumeCommand { thread_id, checkpoint_id, resume_value }
    }
}

/// The checkpoint that is looked for in a scope.
pub fn lookup(thread_id: &str, checkpoint_id: Option<&str>, scope: &MemoryScope) -> (r:
    CheckpointConfig)
    ensures
        r@ == (WhichModel {
            thread_id: thread_id@,
            checkpoint_id: match checkpoint_id {
                Some(id) => Some(id@),
                None => None,
            },
            tenant_id: scope@.0,
            user_id: scope@.1,
        }),
{
    let config = CheckpointConfig::new(String::from_str(thread_id)).with_tenant(
        clone_opt(&scope.tenant_id),
        clone_opt(&scope.user_id),
    );
    match checkpoint_id {
        Some(id) => config.with_checkpoint(String::from_str(id)),
        None => config,
    }
}

/// The error of an answer to a checkpoint that there is not.
pub fn no_checkpoint(thread_id: &str, checkpoint_id: &str) -> (r: LoomError)
    ensures
        r is Other,
        r.text() == "checkpoint not found: thread="@ + thread_id@ + ", checkpoint="@
            + checkpoint_id@,
{
    let mut s = String::from_str("checkpoint not found: thread=");
    s.append(thread_id);
    s.append(", checkpoint=");
    s.append(checkpoint_id);
    LoomError::Other(s)
}

/// The error of a run that has no checkpoint to be taken up from.
pub fn no_checkpoint_of(thread_id: &str, checkpoint_id: &Option<String>) -> (r: LoomError)
    ensures
        r is Other,
        r.text() == "checkpoint not found: thread="@ + thread_id@ + ", checkpoint="@
            + errors::debug_opt(checkpoint_id.deep_view()),
{
    let mut s = String::from_str("checkpoint not found: thread=");
    s.append(thread_id);
    s.append(", checkpoint=");
    s.append(debug_opt_text(checkpoint_id).as_str());
    LoomError::Other(s)
}

// ---------- the answer of a human ----------

/// The call that asked a human, where the last message of the run made it.
pub open spec fn open_question(msgs: Seq<MessageModel>) -> Option<ToolCallModel> {
    if msgs.len() > 0 && msgs.last().role == Role::Assistant {
        types::call_named(msgs.last().calls(), "interrupt"@, 0)
    } else {
        None
    }
}

/// The messages with the answer as the result of the call that asked.
pub open spec fn with_answer(msgs: Seq<MessageModel>, value: JsonModel) -> Seq<MessageModel> {
    match open_question(msgs) {
        Some(call) => msgs.push(llm::tool_message(call.id, codec::compact(value))),
        None => msgs,
    }
}

/// The message that asks for a summary.
pub const SUMMARY_REQUEST: &'static str =
    "你已达到最大工具调用迭代次数。请提供最终回复，总结目前已发现和完成的内容，不要再调用任何工具。";

/// The summary of a model that gives none.
pub const EMPTY_SUMMARY: &'static str = "(empty summary)";

/// What a human wants of a run that has had too many rounds.
pub open spec fn wanted(value: JsonModel) -> Option<Seq<char>> {
    match value.get("action"@) {
        Some(v) => v.as_str(),
        None => None,
    }
}

/// A run as it goes on from what was stored of it.
pub open spec fn continued(
    state: StateModel,
    msgs: Seq<MessageModel>,
    iterations: int,
    thread_id: Seq<char>,
    checkpoint_id: Seq<char>,
    agent_id: u128,
) -> LoopModel {
    LoopModel {
        messages: msgs,
        iterations,
        tool_calls_made: state.tool_calls_made,
        tool_names: state.tool_names,
        thread_id,
        last_checkpoint_id: Some(checkpoint_id),
        agent_id,
        parent_agent_id: state.parent_agent_id,
        delegate_depth: state.delegate_depth,
        toolsets: state.toolsets,
        parent_toolsets: state.parent_toolsets,
    }
}

/// The agent of a thread: the one that the thread is named after; any where its name is
/// no identifier.
pub open spec fn is_agent_of(agent_id: u128, thread_id: Seq<char>) -> bool {
    ids::id_parsed(thread_id) matches Some(id) ==> agent_id == id
}

/// What follows the answer of a human.
#[derive(Debug, PartialEq, Eq)]
pub enum ResumePlan {
    /// The model is asked to sum up, without tools.
    Summarize(LoopContext),
    /// The run goes on.
    Continue(LoopContext),
}

/// How many rounds a run counts when it goes on: none where a human lets it go on beyond
/// its limit.
pub open spec fn rounds_counted(state: StateModel, value: JsonModel) -> int {
    if wanted(value) == Some("continue"@) {
        0
    } else {
        state.iterations
    }
}

/// The agent of a thread.
fn agent_of(thread_id: &str) -> (r: u128)
    ensures
        is_agent_of(r, thread_id@),
{
    match parse_id(thread_id) {
        Some(id) => id,
        None => fresh_id(),
    }
}

/// Adds the answer as the result of the call that asked.
fn push_answer(messages: &mut Vec<ChatMessage>, value: &Json)
    ensures
        final(messages).deep_view() == with_answer(old(messages).deep_view(), value@),
{
    let n: usize = messages.len();
    if n == 0 || messages[n - 1].role != Role::Assistant {
        return;
    }
    let ghost msgs = messages.deep_view();
    assert(msgs.last() == messages@[n - 1]@);
    let question: Option<ToolCall> = match &messages[n - 1].tool_calls {
        Some(calls) => find_interrupt_call(calls.as_slice()),
        None => None,
    };
    assert(question.deep_view() == open_question(msgs));
    if let Some(call) = question {
        messages.push(ChatMessage::tool(call.id, to_text(value)));
    }
}

/// What follows the answer of a human to a run.
pub fn plan_resume(cmd: &ResumeCommand, state: AgentState) -> (r: ResumePlan)
    ensures
        ({
            let value = cmd.resume_value@;
            let msgs = with_answer(state@.messages, value);
            match r {
                ResumePlan::Summarize(ctx) => wanted(value) == Some("summarize"@) && is_agent_of(
                    ctx.agent_id,
                    cmd.thread_id@,
                ) && ctx@ == continued(
                    state@,
                    msgs.push(llm::plain_message(Role::User, SUMMARY_REQUEST@)),
                    state@.iterations,
                    cmd.thread_id@,
                    cmd.checkpoint_id@,
                    ctx.agent_id,
                ),
                ResumePlan::Continue(ctx) => wanted(value) != Some("summarize"@) && is_agent_of(
                    ctx.agent_id,
                    cmd.thread_id@,
                ) && ctx@ == continued(
                    state@,
                    msgs,
                    rounds_counted(state@, value),
                    cmd.thread_id@,
                    cmd.checkpoint_id@,
                    ctx.agent_id,
                ),
            }
        }),
{
    let agent_id: u128 = agent_of(cmd.thread_id.as_str());
    let mut messages = state.messages;
    push_answer(&mut messages, &cmd.resume_value);
    let (summarize, goes_on) = match cmd.resume_value.get("action") {
        Some(v) => match v.as_str() {
            Some(a) => (same_text(a, "summarize"), same_text(a, "continue")),
            None => (false, false),
        },
        None => (false, false),
    };
    let iterations: usize = if goes_on && !summarize {
        0
    } else {
        state.iterations
    };
    if summarize {
        messages.push(ChatMessage::user(String::from_str(SUMMARY_REQUEST)));
    }
    let ctx = LoopContext {
        messages,
        iterations,
        tool_calls_made: state.tool_calls_made,
        tool_names: state.tool_names,
        thread_id: cmd.thread_id.clone(),
        last_checkpoint_id: Some(cmd.checkpoint_id.clone()),
        agent_id,
        parent_agent_id: state.parent_agent_id,
        delegate_depth: state.delegate_depth,
        toolsets: state.toolsets,
        parent_toolsets: state.parent_toolsets,
    };
    if summarize {
        ResumePlan::Summarize(ctx)
    } else {
        ResumePlan::Continue(ctx)
    }
}

/// What a run comes to that has no more to do.
pub open spec fn ended(state: LoopModel, response: Seq<char>) -> EventModel {
    EventModel::Finished {
        response,
        iterations: state.iterations,
        tool_calls_made: state.tool_calls_made,
        tool_names: state.tool_names,
        duration_ms: 0,
        tool_trace: None,
    }
}

/// What a run comes to that was asked to sum up, out of what the model says.
pub fn finish_summary(ctx: LoopContext, content: Option<String>) -> (r: AgentRunOutcome)
    ensures
        ({
            let summary = match content {
                Some(c) => c@,
                None => EMPTY_SUMMARY@,
            };
            &&& r.event() == ended(ctx@, summary)
            &&& r.messages() == ctx@.messages.push(llm::plain_message(Role::Assistant, summary))
        }),
{
    let summary = match content {
        Some(c) => c,
        None => String::from_str(EMPTY_SUMMARY),
    };
    let mut history = ctx.messages;
    history.push(ChatMessage::assistant(summary.clone()));
    AgentRunOutcome::Finished(
        AgentRunResultWithHistory {
            final_response: summary,
            iterations: ctx.iterations,
            tool_calls_made: ctx.tool_calls_made,
            tool_names: ctx.tool_names,
            duration_ms: 0,
            tool_trace: None,
            history,
        },
    )
}

// ---------- going on from any checkpoint ----------

/// The result of a call of which it is not known whether it was made.
pub const UNKNOWN_RESULT: &'static str =
    "[execution interrupted: tool result unknown, please re-evaluate and decide whether to retry or continue]";

/// The messages with a result for each call of the last message.
pub open spec fn with_unknown_results(msgs: Seq<MessageModel>) -> Seq<MessageModel> {
    msgs + msgs.last().calls().map_values(
        |c: ToolCallModel| llm::tool_message(c.id, UNKNOWN_RESULT@),
    )
}

/// The run had given its answer.
pub open spec fn is_answered(msgs: Seq<MessageModel>) -> bool {
    msgs.last().role == Role::Assistant && msgs.last().calls().len() == 0
}

/// The messages with which a run goes on: where calls were made of which it is not known
/// what they came to, the model is told so.
pub open spec fn taken_up(msgs: Seq<MessageModel>) -> Seq<MessageModel> {
    if msgs.last().role == Role::Assistant {
        with_unknown_results(msgs)
    } else {
        msgs
    }
}

/// What is wrong with a checkpoint without messages.
pub const NO_MESSAGES: &'static str = "checkpoint has empty message history";

/// What follows when a run is taken up.
#[derive(Debug, PartialEq, Eq)]
pub enum TakeUpPlan {
    /// It had given its answer.
    Finished(AgentRunOutcome),
    /// It goes on.
    Continue(LoopContext),
}

/// Adds a result for each call of the last message.
fn push_unknown_results(messages: &mut Vec<ChatMessage>)
    requires
        old(messages)@.len() > 0,
    ensures
        final(messages).deep_view() == with_unknown_results(old(messages).deep_view()),
{
    let ghost msgs = messages.deep_view();
    let n: usize = messages.len();
    assert(msgs.last() == messages@[n - 1]@);
    let calls: Vec<ToolCall> = match &messages[n - 1].tool_calls {
        Some(c) => llm::clone_calls(c.as_slice()),
        None => Vec::new(),
    };
    assert(calls.deep_view() =~= msgs.last().calls());
    let ghost all = msgs.last().calls().map_values(
        |c: ToolCallModel| llm::tool_message(c.id, UNKNOWN_RESULT@),
    );
    let mut i: usize = 0;
    assert(msgs + all.take(0) =~= msgs);
    while i < calls.len()
        invariant
            i <= calls@.len(),
            calls.deep_view() == msgs.last().calls(),
            all == msgs.last().calls().map_values(
                |c: ToolCallModel| llm::tool_message(c.id, UNKNOWN_RESULT@),
            ),
            messages.deep_view() == msgs + all.take(i as int),
        decreases calls@.len() - i,
    {
        let m = ChatMessage::tool(calls[i].id.clone(), String::from_str(UNKNOWN_RESULT));
        assert(m@ == all[i as int]);
        messages.push(m);
        i += 1;
        assert(msgs + all.take(i as int) =~= (msgs + all.take(i - 1)).push(all[i - 1]));
    }
    assert(all.take(i as int) =~= all);
}

/// What follows when a run is taken up from a checkpoint.
pub fn plan_take_up(thread_id: &str, checkpoint_id: &str, state: AgentState) -> (r: Result<
    TakeUpPlan,
    LoomError,
>)
    ensures
        ({
            let msgs = state@.messages;
            match r {
                Err(e) => msgs.len() == 0 && e is Other && e.text() == NO_MESSAGES@,
                Ok(TakeUpPlan::Finished(outcome)) => msgs.len() > 0 && is_answered(msgs)
                    && outcome.event() == (EventModel::Finished {
                    response: msgs.last().text(),
                    iterations: state@.iterations,
                    tool_calls_made: state@.tool_calls_made,
                    tool_names: state@.tool_names,
                    duration_ms: 0,
                    tool_trace: None,
                }) && outcome.messages() == msgs,
                Ok(TakeUpPlan::Continue(ctx)) => msgs.len() > 0 && !is_answered(msgs)
                    && is_agent_of(ctx.agent_id, thread_id@) && ctx@ == continued(
                    state@,
                    taken_up(msgs),
                    state@.iterations,
                    thread_id@,
                    checkpoint_id@,
                    ctx.agent_id,
                ),
            }
        }),
{
    let ghost msgs = state@.messages;
    let n: usize = state.messages.len();
    if n == 0 {
        return Err(LoomError::Other(String::from_str(NO_MESSAGES)));
    }
    assert(msgs.last() == state.messages@[n - 1]@);
    let mut messages = state.messages;
    if messages[n - 1].role == Role::Assistant {
        let pending = match &messages[n - 1].tool_calls {
            Some(c) => c.len() > 0,
            None => false,
        };
        if !pending {
            let response = match &messages[n - 1].content {
                Some(c) => c.clone(),
                None => String::new(),
            };
            return Ok(
                TakeUpPlan::Finished(
                    AgentRunOutcome::Finished(
                        AgentRunResultWithHistory {
                            final_response: response,
                            iterations: state.iterations,
                            tool_calls_made: state.tool_calls_made,
                            tool_names: state.tool_names,
                            duration_ms: 0,
                            tool_trace: None,
                            history: messages,
                        },
                    ),
                ),
            );
        }
        push_unknown_results(&mut messages);
    }
    Ok(
        TakeUpPlan::Continue(
            LoopContext {
                messages,
                iterations: state.iterations,
                tool_calls_made: state.tool_calls_made,
                tool_names: state.tool_names,
                thread_id: String::from_str(thread_id),
                last_checkpoint_id: Some(String::from_str(checkpoint_id)),
                agent_id: agent_of(thread_id),
                parent_agent_id: state.parent_agent_id,
                delegate_depth: state.delegate_depth,
                toolsets: state.toolsets,
                parent_toolsets: state.parent_toolsets,
            },
        ),
    )
}

// ---------- laws ----------

/// A run that is stored and taken up again has all that it had: its messages, counts,
/// tools, tool sets, depth and parent.
pub proof fn a_run_is_restored_whole(
    run: LoopModel,
    s: ScopeModel,
    checkpoint_id: Seq<char>,
    compression_state: Option<crate::context::state::SnapshotModel>,
)
    requires
        run.messages.len() > 0,
        run.messages.last().role != Role::Assistant,
    ensures
        ({
            let state = types::stored_state(run, s, compression_state);
            continued(
                state,
                taken_up(state.messages),
                state.iterations,
                run.thread_id,
                checkpoint_id,
                run.agent_id,
            ) == (LoopModel { last_checkpoint_id: Some(checkpoint_id), ..run })
        }),
{
}

/// The state of compression is stored with a run as it is.
pub proof fn compression_is_stored_with_a_run(
    run: LoopModel,
    s: ScopeModel,
    compression_state: Option<crate::context::state::SnapshotModel>,
)
    ensures
        types::stored_state(run, s, compression_state).compression_state == compression_state,
{
}

/// What a human answers is the result of the call that asked, behind all that was said
/// before.
pub proof fn an_answer_reaches_the_question(
    msgs: Seq<MessageModel>,
    calls: Seq<ToolCallModel>,
    question: ToolCallModel,
    value: JsonModel,
)
    requires
        types::call_named(calls, "interrupt"@, 0) == Some(question),
    ensures
        with_answer(msgs.push(llm::calling_message(calls)), value) == msgs.push(
            llm::calling_message(calls),
        ).push(llm::tool_message(question.id, codec::compact(value))),
{
}

/// No call is left without a result when a run is taken up, and nothing that was said
/// before is lost.
pub proof fn no_call_is_left_open(msgs: Seq<MessageModel>, k: int)
    requires
        msgs.len() > 0,
        msgs.last().role == Role::Assistant,
        0 <= k < msgs.last().calls().len(),
    ensures
        taken_up(msgs).take(msgs.len() as int) == msgs,
        taken_up(msgs)[msgs.len() + k] == llm::tool_message(
            msgs.last().calls()[k].id,
            UNKNOWN_RESULT@,
        ),
{
    assert(taken_up(msgs).take(msgs.len() as int) =~= msgs);
}

/// What a human answers reaches the model as the result of the call that asked: of the first
/// such call of the last message. Where nobody was asked, nothing is added.
pub proof fn a_human_answers_the_call_that_asked(
    msgs: Seq<MessageModel>,
    value: JsonModel,
    k: int,
)
    requires
        msgs.len() > 0,
    ensures
        ({
            let after = with_answer(msgs, value);
            let calls = msgs.last().calls();
            &&& msgs.last().role == Role::Assistant && 0 <= k < calls.len() && calls[k].name
                == "interrupt"@ && (forall|j: int|
                0 <= j < k ==> (#[trigger] calls[j]).name != "interrupt"@) ==> {
                &&& after.len() == msgs.len() + 1
                &&& after.drop_last() == msgs
                &&& after.last().role == Role::Tool
                &&& after.last().tool_call_id == Some(calls[k].id)
                &&& after.last().content == Some(codec::compact(value))
            }
            &&& msgs.last().role != Role::Assistant ==> after == msgs
            &&& (forall|j: int|
                0 <= j < calls.len() ==> (#[trigger] calls[j]).name != "interrupt"@) ==> after
                == msgs
        }),
{
    let calls = msgs.last().calls();
    if msgs.last().role == Role::Assistant && 0 <= k < calls.len() && calls[k].name
        == "interrupt"@ && (forall|j: int|
        0 <= j < k ==> (#[trigger] calls[j]).name != "interrupt"@) {
        types::the_first_call_of_a_name_is_found(calls, "interrupt"@, 0, k);
        assert(with_answer(msgs, value).drop_last() =~= msgs);
    }
    if forall|j: int| 0 <= j < calls.len() ==> (#[trigger] calls[j]).name != "interrupt"@ {
        types::no_call_of_a_name_is_found(calls, "interrupt"@, 0);
    }
}

/// A run that is taken up is the one that was stored: with what was said in it, what it has
/// called, whose child it is and which tools it has, under its thread and from its
/// checkpoint on. Its rounds are counted from the beginning again only where a human lets it
/// go on beyond its limit.
pub proof fn a_run_goes_on_as_it_was(
    state: StateModel,
    msgs: Seq<MessageModel>,
    value: JsonModel,
    iterations: int,
    thread_id: Seq<char>,
    checkpoint_id: Seq<char>,
    agent_id: u128,
)
    ensures
        ({
            let c = continued(state, msgs, iterations, thread_id, checkpoint_id, agent_id);
            &&& c.messages == msgs
            &&& c.iterations == iterations
            &&& c.tool_calls_made == state.tool_calls_made
            &&& c.tool_names == state.tool_names
            &&& c.thread_id == thread_id
            &&& c.last_checkpoint_id == Some(checkpoint_id)
            &&& c.agent_id == agent_id
            &&& c.parent_agent_id == state.parent_agent_id
            &&& c.delegate_depth == state.delegate_depth
            &&& c.toolsets == state.toolsets
            &&& c.parent_toolsets == state.parent_toolsets
        }),
        value.get("action"@) == Some(JsonModel::Str("continue"@)) ==> rounds_counted(state, value)
            == 0,
        value.get("action"@) != Some(JsonModel::Str("continue"@)) ==> rounds_counted(state, value)
            == state.iterations,
        value.get("action"@) matches Some(JsonModel::Str(a)) ==> wanted(value) == Some(a),
        !(value.at("action"@) is Str) ==> wanted(value) is None,
{
}

/// A run that was broken off is taken up where it was: after an answer without calls there is
/// nothing to do; calls that were under way are answered, each, with a note that their
/// outcome is not known; and behind anything else it goes on as it is.
pub proof fn a_broken_off_run_is_taken_up(msgs: Seq<MessageModel>, k: int)
    requires
        msgs.len() > 0,
    ensures
        is_answered(msgs) == (msgs.last().role == Role::Assistant && msgs.last().calls().len()
            == 0),
        msgs.last().role != Role::Assistant ==> taken_up(msgs) == msgs,
        msgs.last().role == Role::Assistant ==> taken_up(msgs).len() == msgs.len()
            + msgs.last().calls().len(),
        msgs.last().role == Role::Assistant && 0 <= k < msgs.last().calls().len() ==> {
            let m = taken_up(msgs)[msgs.len() + k];
            &&& m.role == Role::Tool
            &&& m.tool_call_id == Some(msgs.last().calls()[k].id)
            &&& m.content == Some(UNKNOWN_RESULT@)
        },
{
}

/// A run that is summed up ends with the summary, with what it has done before.
pub proof fn a_run_ends_with_its_summary(run: LoopModel, response: Seq<char>)
    ensures
        ended(run, response) matches EventModel::Finished {
            response: r,
            iterations,
            tool_calls_made,
            tool_names,
            duration_ms,
            tool_trace,
        } && r == response && iterations == run.iterations && tool_calls_made
            == run.tool_calls_made && tool_names == run.tool_names && duration_ms == 0
            && tool_trace is None,
{
}

/// A thread that is named after an agent belongs to that agent.
pub proof fn a_thread_belongs_to_its_agent(agent_id: u128, id: u128, thread_id: Seq<char>)
    requires
        is_agent_of(agent_id, thread_id),
        ids::id_parsed(thread_id) == Some(id),
    ensures
        agent_id == id,
{
}

} // verus!

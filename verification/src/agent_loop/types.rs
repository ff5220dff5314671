//! The state of a run, and what a run comes to.
use vstd::prelude::*;

use crate::checkpoint;
use crate::checkpoint::{
    make_checkpoint_scoped, Checkpoint, CheckpointMetadata, CheckpointModel, MetadataModel,
};
use crate::clock::Timestamp;
use crate::context::state::{CompressionStateSnapshot, SnapshotModel};
use crate::errors::LoomError;
use crate::ids;
use crate::isolation::ActivitySummary;
use crate::json;
use crate::json::codec;
use crate::json::codec::to_text;
use crate::json::{add_field, Json, JsonModel};
use crate::llm::{
    clone_messages, clone_opt, clone_texts, ChatMessage, MessageModel, Role, ToolCall,
    ToolCallModel,
};
use crate::result;
use crate::result::{ToolTrace, TraceModel};
use crate::scope::{MemoryScope, ScopeModel};
use crate::stored;
use crate::text::same_text;

verus! {

broadcast use {crate::seqs::group_views, crate::json::fields_model_push};

/// How many entries the trace of a run keeps.
pub const TOOL_TRACE_MAX_ENTRIES: usize = 10;

// ---------- what a run comes to ----------

/// What a run comes to.
#[derive(Debug, PartialEq, Eq)]
pub enum AgentEvent {
    Finished {
        response: String,
        iterations: usize,
        tool_calls_made: usize,
        tool_names: Vec<String>,
        duration_ms: u64,
        tool_trace: Option<ToolTrace>,
    },
    /// A human is asked; the run can be taken up again from the checkpoint.
    Interrupt { value: Json, checkpoint_id: String, thread_id: String },
}

/// What a run comes to.
pub enum EventModel {
    Finished {
        response: Seq<char>,
        iterations: int,
        tool_calls_made: int,
        tool_names: Seq<Seq<char>>,
        duration_ms: u64,
        tool_trace: Option<Seq<TraceModel>>,
    },
    Interrupt { value: JsonModel, checkpoint_id: Seq<char>, thread_id: Seq<char> },
}

impl View for AgentEvent {
    type V = EventModel;

    open spec fn view(&self) -> EventModel {
        match self {
            AgentEvent::Finished {
                response,
                iterations,
                tool_calls_made,
                tool_names,
                duration_ms,
                tool_trace,
            } => EventModel::Finished {
                response: response@,
                iterations: *iterations as int,
                tool_calls_made: *tool_calls_made as int,
                tool_names: tool_names.deep_view(),
                duration_ms: *duration_ms,
                tool_trace: tool_trace.deep_view(),
            },
            AgentEvent::Interrupt { value, checkpoint_id, thread_id } => EventModel::Interrupt {
                value: value@,
                checkpoint_id: checkpoint_id@,
                thread_id: thread_id@,
            },
        }
    }
}

/// What a run comes to that finishes.
#[derive(Debug, PartialEq, Eq)]
pub struct AgentRunResult {
    pub final_response: String,
    pub iterations: usize,
    pub tool_calls_made: usize,
    pub tool_names: Vec<String>,
    pub duration_ms: u64,
    pub tool_trace: Option<ToolTrace>,
}

/// What a run comes to that finishes, with all its messages.
#[derive(Debug, PartialEq, Eq)]
pub struct AgentRunResultWithHistory {
    pub final_response: String,
    pub iterations: usize,
    pub tool_calls_made: usize,
    pub tool_names: Vec<String>,
    pub duration_ms: u64,
    pub tool_trace: Option<ToolTrace>,
    pub history: Vec<ChatMessage>,
}

/// What a run comes to, with all its messages.
#[derive(Debug, PartialEq, Eq)]
pub enum AgentRunOutcome {
    Finished(AgentRunResultWithHistory),
    Interrupt {
        value: Json,
        checkpoint_id: String,
        thread_id: String,
        history: Vec<ChatMessage>,
    },
}

impl AgentRunOutcome {
    /// The event of the run.
    pub open spec fn event(self) -> EventModel {
        match self {
            AgentRunOutcome::Finished(r) => EventModel::Finished {
                response: r.final_response@,
                iterations: r.iterations as int,
                tool_calls_made: r.tool_calls_made as int,
                tool_names: r.tool_names.deep_view(),
                duration_ms: r.duration_ms,
                tool_trace: r.tool_trace.deep_view(),
            },
            AgentRunOutcome::Interrupt { value, checkpoint_id, thread_id, history } =>
                EventModel::Interrupt {
                    value: value@,
                    checkpoint_id: checkpoint_id@,
                    thread_id: thread_id@,
                },
        }
    }

    /// All messages of the run.
    pub open spec fn messages(self) -> Seq<MessageModel> {
        match self {
            AgentRunOutcome::Finished(r) => r.history.deep_view(),
            AgentRunOutcome::Interrupt { value, checkpoint_id, thread_id, history } =>
                history.deep_view(),
        }
    }
}

/// What a run comes to, out of its event and its messages.
pub fn outcome_of(event: AgentEvent, history: Vec<ChatMessage>) -> (r: AgentRunOutcome)
    ensures
        r.event() == event@,
        r.messages() == history.deep_view(),
{
    match event {
        AgentEvent::Finished {
            response,
            iterations,
            tool_calls_made,
            tool_names,
            duration_ms,
            tool_trace,
        } => AgentRunOutcome::Finished(
            AgentRunResultWithHistory {
                final_response: response,
                iterations,
                tool_calls_made,
                tool_names,
                duration_ms,
                tool_trace,
                history,
            },
        ),
        AgentEvent::Interrupt { value, checkpoint_id, thread_id } => AgentRunOutcome::Interrupt {
            value,
            checkpoint_id,
            thread_id,
            history,
        },
    }
}

/// The error of a run that asks a human where none can be asked.
pub const INTERRUPTED_RUN: &'static str =
    "agent returned interrupt; use run_goal_with_event + resume for HITL flow";

/// What a run comes to that has to finish.
pub fn run_result(event: AgentEvent) -> (r: Result<AgentRunResult, LoomError>)
    ensures
        match r {
            Ok(x) => event@ == (EventModel::Finished {
                response: x.final_response@,
                iterations: x.iterations as int,
                tool_calls_made: x.tool_calls_made as int,
                tool_names: x.tool_names.deep_view(),
                duration_ms: x.duration_ms,
                tool_trace: x.tool_trace.deep_view(),
            }),
            Err(e) => event is Interrupt && (e matches LoomError::AgentExecution(s) && s@
                == INTERRUPTED_RUN@),
        },
{
    match event {
        AgentEvent::Finished {
            response,
            iterations,
            tool_calls_made,
            tool_names,
            duration_ms,
            tool_trace,
        } => Ok(
            AgentRunResult {
                final_response: response,
                iterations,
                tool_calls_made,
                tool_names,
                duration_ms,
                tool_trace,
            },
        ),
        AgentEvent::Interrupt { .. } => Err(
            LoomError::AgentExecution(String::from_str(INTERRUPTED_RUN)),
        ),
    }
}

// ---------- the state of a run ----------

/// The state of a run.
#[derive(Debug, PartialEq, Eq)]
pub struct LoopContext {
    pub messages: Vec<ChatMessage>,
    pub iterations: usize,
    pub tool_calls_made: usize,
    pub tool_names: Vec<String>,
    pub thread_id: String,
    pub last_checkpoint_id: Option<String>,
    pub agent_id: u128,
    pub parent_agent_id: Option<u128>,
    pub delegate_depth: u32,
    pub toolsets: Vec<String>,
    pub parent_toolsets: Vec<String>,
}

/// The state of a run.
#[verifier::ext_equal]
pub struct LoopModel {
    pub messages: Seq<MessageModel>,
    pub iterations: int,
    pub tool_calls_made: int,
    pub tool_names: Seq<Seq<char>>,
    pub thread_id: Seq<char>,
    pub last_checkpoint_id: Option<Seq<char>>,
    pub agent_id: u128,
    pub parent_agent_id: Option<u128>,
    pub delegate_depth: u32,
    pub toolsets: Seq<Seq<char>>,
    pub parent_toolsets: Seq<Seq<char>>,
}

impl View for LoopContext {
    type V = LoopModel;

    open spec fn view(&self) -> LoopModel {
        LoopModel {
            messages: self.messages.deep_view(),
            iterations: self.iterations as int,
            tool_calls_made: self.tool_calls_made as int,
            tool_names: self.tool_names.deep_view(),
            thread_id: self.thread_id@,
            last_checkpoint_id: self.last_checkpoint_id.deep_view(),
            agent_id: self.agent_id,
            parent_agent_id: self.parent_agent_id,
            delegate_depth: self.delegate_depth,
            toolsets: self.toolsets.deep_view(),
            parent_toolsets: self.parent_toolsets.deep_view(),
        }
    }
}

/// The last message of that role that there is, before the first `n`.
pub open spec fn last_of_role(msgs: Seq<MessageModel>, role: Role) -> Option<MessageModel>
    decreases msgs.len(),
{
    if msgs.len() == 0 {
        None
    } else if msgs.last().role == role {
        Some(msgs.last())
    } else {
        last_of_role(msgs.drop_last(), role)
    }
}

/// The text of the last message of that role; empty where there is none.
pub open spec fn last_text(msgs: Seq<MessageModel>, role: Role) -> Seq<char> {
    match last_of_role(msgs, role) {
        Some(m) => m.text(),
        None => Seq::empty(),
    }
}

/// The last message of that role.
fn find_last(messages: &[ChatMessage], role: Role) -> (r: Option<usize>)
    ensures
        match r {
            Some(i) => i < messages@.len() && last_of_role(messages.deep_view(), role) == Some(
                messages@[i as int]@,
            ),
            None => last_of_role(messages.deep_view(), role) is None,
        },
{
    let ghost all = messages.deep_view();
    let mut n: usize = messages.len();
    assert(all.take(n as int) =~= all);
    while n > 0
        invariant
            n <= messages@.len(),
            all == messages.deep_view(),
            last_of_role(all, role) == last_of_role(all.take(n as int), role),
        decreases n,
    {
        assert(all.take(n as int).last() == all[n - 1]);
        if messages[n - 1].role == role {
            return Some(n - 1);
        }
        assert(all.take(n as int).drop_last() =~= all.take(n - 1));
        n = n - 1;
    }
    None
}

/// The text of a message; empty where it has none.
fn text_of(m: &ChatMessage) -> (r: String)
    ensures
        r@ == m@.text(),
{
    match &m.content {
        Some(c) => c.clone(),
        None => String::new(),
    }
}

/// The last texts of the user and of the model.
pub fn last_turn_pair(messages: &[ChatMessage]) -> (r: (String, String))
    ensures
        r.0@ == last_text(messages.deep_view(), Role::User),
        r.1@ == last_text(messages.deep_view(), Role::Assistant),
{
    let user = match find_last(messages, Role::User) {
        Some(i) => text_of(&messages[i]),
        None => String::new(),
    };
    let assistant = match find_last(messages, Role::Assistant) {
        Some(i) => text_of(&messages[i]),
        None => String::new(),
    };
    (user, assistant)
}

/// What the user last said, where the last message of the user has a text.
pub fn latest_user_text(messages: &[ChatMessage]) -> (r: Option<String>)
    ensures
        r.deep_view() == match last_of_role(messages.deep_view(), Role::User) {
            Some(m) => m.content,
            None => None,
        },
{
    match find_last(messages, Role::User) {
        Some(i) => clone_opt(&messages[i].content),
        None => None,
    }
}

/// The last message of the user that has a text, and the text.
pub open spec fn last_user_words(msgs: Seq<MessageModel>) -> Option<Seq<char>>
    decreases msgs.len(),
{
    if msgs.len() == 0 {
        None
    } else if msgs.last().role == Role::User && msgs.last().content is Some {
        msgs.last().content
    } else {
        last_user_words(msgs.drop_last())
    }
}

/// The last words of the user.
fn find_user_words(messages: &[ChatMessage]) -> (r: Option<String>)
    ensures
        r.deep_view() == last_user_words(messages.deep_view()),
{
    let ghost all = messages.deep_view();
    let mut n: usize = messages.len();
    assert(all.take(n as int) =~= all);
    while n > 0
        invariant
            n <= messages@.len(),
            all == messages.deep_view(),
            last_user_words(all) == last_user_words(all.take(n as int)),
        decreases n,
    {
        assert(all.take(n as int).last() == all[n - 1]);
        if messages[n - 1].role == Role::User {
            if let Some(c) = &messages[n - 1].content {
                return Some(c.clone());
            }
        }
        assert(all.take(n as int).drop_last() =~= all.take(n - 1));
        n = n - 1;
    }
    None
}

/// What is stored of a run.
#[derive(Debug, PartialEq, Eq)]
pub struct AgentState {
    pub messages: Vec<ChatMessage>,
    pub iterations: usize,
    pub tool_calls_made: usize,
    pub tool_names: Vec<String>,
    pub toolsets: Vec<String>,
    pub parent_toolsets: Vec<String>,
    pub delegate_depth: u32,
    pub parent_agent_id: Option<u128>,
    /// The scope, as JSON.
    pub scope_json: Option<String>,
    pub last_user_message: Option<String>,
    pub compression_state: Option<CompressionStateSnapshot>,
}

/// What is stored of a run.
#[verifier::ext_equal]
pub struct StateModel {
    pub messages: Seq<MessageModel>,
    pub iterations: int,
    pub tool_calls_made: int,
    pub tool_names: Seq<Seq<char>>,
    pub toolsets: Seq<Seq<char>>,
    pub parent_toolsets: Seq<Seq<char>>,
    pub delegate_depth: u32,
    pub parent_agent_id: Option<u128>,
    pub scope_json: Option<Seq<char>>,
    pub last_user_message: Option<Seq<char>>,
    pub compression_state: Option<SnapshotModel>,
}

impl View for AgentState {
    type V = StateModel;

    open spec fn view(&self) -> StateModel {
        StateModel {
            messages: self.messages.deep_view(),
            iterations: self.iterations as int,
            tool_calls_made: self.tool_calls_made as int,
            tool_names: self.tool_names.deep_view(),
            toolsets: self.toolsets.deep_view(),
            parent_toolsets: self.parent_toolsets.deep_view(),
            delegate_depth: self.delegate_depth,
            parent_agent_id: self.parent_agent_id,
            scope_json: self.scope_json.deep_view(),
            last_user_message: self.last_user_message.deep_view(),
            compression_state: self.compression_state.deep_view(),
        }
    }
}

/// A scope as JSON.
pub open spec fn scope_json(s: ScopeModel) -> JsonModel {
    JsonModel::Object(
        seq![
            ("tenant_id"@, json::opt_str_model(s.0)),
            ("user_id"@, json::opt_str_model(s.1)),
        ],
    )
}

/// A scope as the text of JSON, from which it is read back as it is.
pub fn scope_to_text(scope: &MemoryScope) -> (r: String)
    ensures
        r@ == codec::compact(scope_json(scope@)),
        stored::read_scope(r@) == Some(scope@),
{
    let mut o: Vec<(String, Json)> = Vec::new();
    add_field(&mut o, "tenant_id", Json::opt_str(&scope.tenant_id));
    add_field(&mut o, "user_id", Json::opt_str(&scope.user_id));
    let j = Json::object(o);
    assert(j@->Object_0 =~= scope_json(scope@)->Object_0);
    let t = to_text(&j);
    proof {
        reveal_strlit("tenant_id");
        reveal_strlit("user_id");
        assert("tenant_id"@[0] == 't' && "user_id"@[0] == 'u');
        assert("tenant_id"@.take(0) =~= "user_id"@.take(0));
        assert(codec::comes_before("tenant_id"@, "user_id"@));
        assert(codec::is_flat(j@));
        stored::a_scope_is_read_back(scope@, t@);
    }
    t
}

/// What is stored of a run in a scope.
pub open spec fn stored_state(
    run: LoopModel,
    s: ScopeModel,
    compression_state: Option<SnapshotModel>,
) -> StateModel {
    StateModel {
        messages: run.messages,
        iterations: run.iterations,
        tool_calls_made: run.tool_calls_made,
        tool_names: run.tool_names,
        toolsets: run.toolsets,
        parent_toolsets: run.parent_toolsets,
        delegate_depth: run.delegate_depth,
        parent_agent_id: run.parent_agent_id,
        scope_json: Some(codec::compact(scope_json(s))),
        last_user_message: last_user_words(run.messages),
        compression_state,
    }
}

impl AgentState {
    /// What is stored of a run in a scope.
    pub fn from_runtime(
        ctx: &LoopContext,
        scope: &MemoryScope,
        compression_state: Option<CompressionStateSnapshot>,
    ) -> (r: Self)
        ensures
            r@ == stored_state(ctx@, scope@, compression_state.deep_view()),
            r.scope_json matches Some(t) && stored::read_scope(t@) == Some(scope@),
    {
        AgentState {
            messages: clone_messages(ctx.messages.as_slice()),
            iterations: ctx.iterations,
            tool_calls_made: ctx.tool_calls_made,
            tool_names: clone_texts(ctx.tool_names.as_slice()),
            toolsets: clone_texts(ctx.toolsets.as_slice()),
            parent_toolsets: clone_texts(ctx.parent_toolsets.as_slice()),
            delegate_depth: ctx.delegate_depth,
            parent_agent_id: ctx.parent_agent_id,
            scope_json: Some(scope_to_text(scope)),
            last_user_message: find_user_words(ctx.messages.as_slice()),
            compression_state,
        }
    }
}

/// The checkpoint of a run: in its thread, behind its last checkpoint, of its scope.
pub open spec fn run_checkpoint(
    id: Seq<char>,
    run: LoopModel,
    s: ScopeModel,
    channel_values: JsonModel,
    source: Seq<char>,
    now: Timestamp,
) -> CheckpointModel {
    checkpoint::fresh_checkpoint(
        id,
        run.thread_id,
        run.last_checkpoint_id,
        channel_values,
        MetadataModel { step: run.iterations as u64, source, extra: Seq::empty() },
        now,
        s.0,
        s.1,
    )
}

/// The checkpoint of a run; `channel_values` is what is stored of the run.
pub fn checkpoint_of(
    ctx: &LoopContext,
    scope: &MemoryScope,
    channel_values: Json,
    source: &str,
    now: Timestamp,
) -> (r: Checkpoint)
    ensures
        exists|id: u128|
            r@ == run_checkpoint(
                #[trigger] ids::id_text(id),
                ctx@,
                scope@,
                channel_values@,
                source@,
                now,
            ),
{
    let metadata = CheckpointMetadata {
        step: ctx.iterations as u64,
        source: String::from_str(source),
        extra: Vec::new(),
    };
    assert(json::fields_model(metadata.extra@) =~= Seq::<(Seq<char>, JsonModel)>::empty());
    let ghost noted = metadata@;
    assert(noted =~= (MetadataModel {
        step: ctx@.iterations as u64,
        source: source@,
        extra: Seq::empty(),
    }));
    make_checkpoint_scoped(
        ctx.thread_id.clone(),
        clone_opt(&ctx.last_checkpoint_id),
        channel_values,
        metadata,
        now,
        clone_opt(&scope.tenant_id),
        clone_opt(&scope.user_id),
    )
}

// ---------- what a parent sees ----------

/// What a parent sees of a run when a round begins.
pub fn round_activity(iterations: usize, now: Timestamp) -> (r: ActivitySummary)
    ensures
        r == (ActivitySummary {
            iterations: iterations as u64,
            api_call_count: iterations as u64,
            current_tool: None,
            last_activity: Some(now),
        }),
{
    ActivitySummary {
        iterations: iterations as u64,
        api_call_count: iterations as u64,
        current_tool: None,
        last_activity: Some(now),
    }
}

/// What a parent sees of a run while tools are called: the first of them.
pub fn tool_activity(before: &ActivitySummary, calls: &[ToolCall], now: Timestamp) -> (r:
    ActivitySummary)
    ensures
        r.iterations == before.iterations,
        r.api_call_count == before.api_call_count,
        r.current_tool.deep_view() == if calls@.len() > 0 {
            Some(calls@[0].name@)
        } else {
            None
        },
        r.last_activity == Some(now),
{
    let current_tool = if calls.len() > 0 {
        Some(calls[0].name.clone())
    } else {
        None
    };
    ActivitySummary {
        iterations: before.iterations,
        api_call_count: before.api_call_count,
        current_tool,
        last_activity: Some(now),
    }
}

/// What a run comes to that finishes with that response.
pub open spec fn finished(run: LoopModel, response: Seq<char>, duration_ms: u64) -> EventModel {
    EventModel::Finished {
        response,
        iterations: run.iterations,
        tool_calls_made: run.tool_calls_made,
        tool_names: run.tool_names,
        duration_ms,
        tool_trace: Some(
            result::trace_of(run.messages, run.messages, TOOL_TRACE_MAX_ENTRIES as int),
        ),
    }
}

/// What a run comes to that finishes with that response.
pub fn finished_event(ctx: &LoopContext, response: String, duration_ms: u64) -> (r: AgentEvent)
    ensures
        r@ == finished(ctx@, response@, duration_ms),
{
    let tool_trace = ToolTrace::from_messages(ctx.messages.as_slice(), TOOL_TRACE_MAX_ENTRIES);
    AgentEvent::Finished {
        response,
        iterations: ctx.iterations,
        tool_calls_made: ctx.tool_calls_made,
        tool_names: clone_texts(ctx.tool_names.as_slice()),
        duration_ms,
        tool_trace: Some(tool_trace),
    }
}

/// The first call of that tool, at or after `i`.
pub open spec fn call_named(
    calls: Seq<ToolCallModel>,
    name: Seq<char>,
    i: int,
) -> Option<ToolCallModel>
    decreases calls.len() - i,
{
    if i < 0 || i >= calls.len() {
        None
    } else if calls[i].name == name {
        Some(calls[i])
    } else {
        call_named(calls, name, i + 1)
    }
}

/// The first call that asks a human.
pub fn find_interrupt_call(calls: &[ToolCall]) -> (r: Option<ToolCall>)
    ensures
        r.deep_view() == call_named(calls.deep_view(), "interrupt"@, 0),
{
    let ghost all = calls.deep_view();
    let mut i: usize = 0;
    while i < calls.len()
        invariant
            i <= calls@.len(),
            all == calls.deep_view(),
            call_named(all, "interrupt"@, 0) == call_named(all, "interrupt"@, i as int),
        decreases calls@.len() - i,
    {
        if same_text(calls[i].name.as_str(), "interrupt") {
            return Some(calls[i].clone());
        }
        i += 1;
    }
    None
}

/// The first call of a name is the one that is found.
pub proof fn the_first_call_of_a_name_is_found(
    calls: Seq<ToolCallModel>,
    name: Seq<char>,
    i: int,
    k: int,
)
    requires
        0 <= i <= k < calls.len(),
        calls[k].name == name,
        forall|j: int| i <= j < k ==> (#[trigger] calls[j]).name != name,
    ensures
        call_named(calls, name, i) == Some(calls[k]),
    decreases k - i,
{
    if i < k {
        the_first_call_of_a_name_is_found(calls, name, i + 1, k);
    }
}

/// No call of a name is found where there is none.
pub proof fn no_call_of_a_name_is_found(calls: Seq<ToolCallModel>, name: Seq<char>, i: int)
    requires
        0 <= i,
        forall|j: int| i <= j < calls.len() ==> (#[trigger] calls[j]).name != name,
    ensures
        call_named(calls, name, i) is None,
    decreases calls.len() - i,
{
    if i < calls.len() {
        no_call_of_a_name_is_found(calls, name, i + 1);
    }
}

/// The last message of a role is the one that no other of that role follows.
pub proof fn the_last_of_a_role_is_found(msgs: Seq<MessageModel>, role: Role, k: int)
    requires
        -1 <= k < msgs.len(),
        k >= 0 ==> msgs[k].role == role,
        forall|j: int| k < j < msgs.len() ==> (#[trigger] msgs[j]).role != role,
    ensures
        k >= 0 ==> last_of_role(msgs, role) == Some(msgs[k]) && last_text(msgs, role)
            == msgs[k].text(),
        k < 0 ==> last_of_role(msgs, role) is None && last_text(msgs, role).len() == 0,
    decreases msgs.len(),
{
    if msgs.len() > 0 && k < msgs.len() - 1 {
        assert forall|j: int| k < j < msgs.drop_last().len() implies (
        #[trigger] msgs.drop_last()[j]).role != role by {
            assert(msgs.drop_last()[j] == msgs[j]);
        }
        assert(msgs[msgs.len() - 1].role != role);
        the_last_of_a_role_is_found(msgs.drop_last(), role, k);
    }
}

/// The last words of the user are those that no other words of the user follow.
pub proof fn the_last_words_of_the_user_are_kept(msgs: Seq<MessageModel>, k: int)
    requires
        -1 <= k < msgs.len(),
        k >= 0 ==> msgs[k].role == Role::User && msgs[k].content is Some,
        forall|j: int|
            k < j < msgs.len() ==> !((#[trigger] msgs[j]).role == Role::User && msgs[j].content
                is Some),
    ensures
        k >= 0 ==> last_user_words(msgs) == msgs[k].content,
        k < 0 ==> last_user_words(msgs) is None,
    decreases msgs.len(),
{
    if msgs.len() > 0 && k < msgs.len() - 1 {
        assert forall|j: int| k < j < msgs.drop_last().len() implies !((
        #[trigger] msgs.drop_last()[j]).role == Role::User && msgs.drop_last()[j].content
            is Some) by {
            assert(msgs.drop_last()[j] == msgs[j]);
        }
        the_last_words_of_the_user_are_kept(msgs.drop_last(), k);
    }
}

/// What is stored of a run is all of it: what was said, what it has done, whose child it is,
/// which tools it has, and how far its conversation was compressed.
pub proof fn a_run_is_stored_whole(
    run: LoopModel,
    s: ScopeModel,
    compression_state: Option<SnapshotModel>,
)
    ensures
        ({
            let state = stored_state(run, s, compression_state);
            &&& state.messages == run.messages
            &&& state.iterations == run.iterations
            &&& state.tool_calls_made == run.tool_calls_made
            &&& state.tool_names == run.tool_names
            &&& state.toolsets == run.toolsets
            &&& state.parent_toolsets == run.parent_toolsets
            &&& state.delegate_depth == run.delegate_depth
            &&& state.parent_agent_id == run.parent_agent_id
            &&& state.compression_state == compression_state
            &&& state.last_user_message == last_user_words(run.messages)
        }),
{
}

/// A run that has finished is told with its response, its rounds, its calls and a trace of
/// the last of them.
pub proof fn a_finished_run_is_told(run: LoopModel, response: Seq<char>, duration_ms: u64)
    ensures
        finished(run, response, duration_ms) matches EventModel::Finished {
            response: r,
            iterations,
            tool_calls_made,
            tool_names,
            duration_ms: d,
            tool_trace,
        } && r == response && iterations == run.iterations && tool_calls_made
            == run.tool_calls_made && tool_names == run.tool_names && d == duration_ms && (
        tool_trace matches Some(t) && t == result::trace_of(run.messages, run.messages, 10)),
{
}

/// A checkpoint of a run belongs to its thread and to the one before it, says how many
/// rounds it has had and why it was stored, and holds what is to be kept.
pub proof fn a_checkpoint_is_of_its_run(
    id: Seq<char>,
    run: LoopModel,
    s: ScopeModel,
    channel_values: JsonModel,
    source: Seq<char>,
    now: Timestamp,
)
    requires
        0 <= run.iterations <= u64::MAX,
    ensures
        ({
            let c = run_checkpoint(id, run, s, channel_values, source, now);
            &&& c.id == id
            &&& c.thread_id == run.thread_id
            &&& c.parent_id == run.last_checkpoint_id
            &&& c.channel_values == channel_values
            &&& c.metadata.step == run.iterations
            &&& c.metadata.source == source
            &&& c.tenant_id == s.0
            &&& c.user_id == s.1
        }),
{
}

/// The outcome of a run says what the run reports: its answer, how many rounds and calls it
/// took and which tools were called, or what a human is shown and where the run goes on.
pub proof fn an_outcome_is_what_was_reported(
    r: AgentRunResultWithHistory,
    value: Json,
    checkpoint_id: String,
    thread_id: String,
    history: Vec<ChatMessage>,
)
    ensures
        AgentRunOutcome::Finished(r).event() matches EventModel::Finished {
            response,
            iterations,
            tool_calls_made,
            tool_names,
            duration_ms,
            tool_trace,
        } && response == r.final_response@ && iterations == r.iterations && tool_calls_made
            == r.tool_calls_made && tool_names == r.tool_names.deep_view() && duration_ms
            == r.duration_ms && tool_trace == r.tool_trace.deep_view(),
        AgentRunOutcome::Finished(r).messages() == r.history.deep_view(),
        (AgentRunOutcome::Interrupt { value, checkpoint_id, thread_id, history }).event()
            == (EventModel::Interrupt {
            value: value@,
            checkpoint_id: checkpoint_id@,
            thread_id: thread_id@,
        }),
        (AgentRunOutcome::Interrupt { value, checkpoint_id, thread_id, history }).messages()
            == history.deep_view(),
{
}

} // verus!

//! What is shown of agents, capabilities and conversations.
use vstd::prelude::*;

use crate::capability::{CapabilityKind, CapabilitySource, CapabilitySpec, SourceModel};
use crate::errors;
use crate::errors::quote;
use crate::isolation;
use crate::json::codec;
use crate::json::codec::debug_text;
use crate::json::{Json, JsonModel};
use crate::lifecycle;
use crate::lifecycle::AgentHandle;
use crate::llm;
use crate::llm::{ChatMessage, MessageModel, ToolCall, ToolCallModel};
use crate::result;
use crate::result::ToolTrace;
use crate::session;
use crate::session::derive_title;
use crate::text;

verus! {

broadcast use crate::seqs::group_views;

/// What is shown of an agent.
#[derive(Debug, PartialEq, Eq)]
pub struct AgentView {
    pub agent_id: u128,
    pub state: String,
    pub isolation: String,
    pub goal: String,
    pub parent_agent_id: Option<u128>,
    pub created_at: String,
}

impl AgentView {
    /// It is of that agent.
    pub open spec fn is_of(self, h: AgentHandle) -> bool {
        &&& self.agent_id == h.agent_id
        &&& self.state@ == lifecycle::state_name(h.state)
        &&& self.isolation@ == isolation::level_name(h.isolation)
        &&& self.goal@ == h.goal@
        &&& self.parent_agent_id == h.parent_agent_id
        &&& self.created_at@ == h.created_at.text()
    }

    /// What is shown of an agent.
    pub fn of(h: AgentHandle) -> (r: Self)
        ensures
            r.is_of(h),
    {
        AgentView {
            agent_id: h.agent_id,
            state: String::from_str(h.state.name()),
            isolation: String::from_str(h.isolation.name()),
            parent_agent_id: h.parent_agent_id,
            created_at: h.created_at.to_text(),
            goal: h.goal,
        }
    }
}

/// What is shown of a capability.
#[derive(Debug, PartialEq, Eq)]
pub struct CapabilityView {
    pub id: u128,
    pub name: String,
    pub kind: String,
    pub description: String,
    pub source: String,
}

/// The name of a kind.
pub open spec fn kind_name(kind: CapabilityKind) -> Seq<char> {
    match kind {
        CapabilityKind::Tool => "Tool"@,
        CapabilityKind::Agent => "Agent"@,
        CapabilityKind::Resource => "Resource"@,
    }
}

/// A source as it is shown.
pub open spec fn source_text(source: SourceModel) -> Seq<char> {
    match source {
        SourceModel::Native { module } => "Native { module: "@ + errors::quoted(module) + " }"@,
        SourceModel::Mcp { server_url, tool_name } => "Mcp { server_url: "@ + errors::quoted(
            server_url,
        ) + ", tool_name: "@ + errors::quoted(tool_name) + " }"@,
        SourceModel::A2a { agent_url, agent_card } => "A2a { agent_url: "@ + errors::quoted(
            agent_url,
        ) + ", agent_card: "@ + codec::debugged(agent_card) + " }"@,
    }
}

/// A source as it is shown.
fn show_source(source: &CapabilitySource) -> (r: String)
    ensures
        r@ == source_text(source@),
{
    match source {
        CapabilitySource::Native { module } => {
            let mut s = String::from_str("Native { module: ");
            s.append(quote(module.as_str()).as_str());
            s.append(" }");
            s
        },
        CapabilitySource::Mcp { server_url, tool_name } => {
            let mut s = String::from_str("Mcp { server_url: ");
            s.append(quote(server_url.as_str()).as_str());
            s.append(", tool_name: ");
            s.append(quote(tool_name.as_str()).as_str());
            s.append(" }");
            s
        },
        CapabilitySource::A2a { agent_url, agent_card } => {
            let mut s = String::from_str("A2a { agent_url: ");
            s.append(quote(agent_url.as_str()).as_str());
            s.append(", agent_card: ");
            s.append(debug_text(agent_card).as_str());
            s.append(" }");
            s
        },
    }
}

impl CapabilityView {
    /// It is of that capability.
    pub open spec fn is_of(self, spec: CapabilitySpec) -> bool {
        &&& self.id == spec.id
        &&& self.name@ == spec.name@
        &&& self.kind@ == kind_name(spec.kind)
        &&& self.description@ == spec.description@
        &&& self.source@ == source_text(spec.source@)
    }

    /// What is shown of a capability.
    pub fn of(spec: CapabilitySpec) -> (r: Self)
        ensures
            r.is_of(spec),
    {
        let kind = match spec.kind {
            CapabilityKind::Tool => "Tool",
            CapabilityKind::Agent => "Agent",
            CapabilityKind::Resource => "Resource",
        };
        let source = show_source(&spec.source);
        CapabilityView {
            id: spec.id,
            name: spec.name,
            kind: String::from_str(kind),
            description: spec.description,
            source,
        }
    }
}

// ---------- conversations ----------

/// What is shown of a call of a tool.
#[derive(Debug, PartialEq, Eq)]
pub struct ToolCallView {
    pub id: String,
    pub name: String,
    pub arguments: Option<Json>,
}

/// What is shown of a call of a tool: its name, itself and its arguments, where it has any.
pub type ShownCall = (Seq<char>, Seq<char>, Option<JsonModel>);

impl View for ToolCallView {
    type V = ShownCall;

    open spec fn view(&self) -> ShownCall {
        (self.id@, self.name@, self.arguments.deep_view())
    }
}

impl DeepView for ToolCallView {
    type V = ShownCall;

    open spec fn deep_view(&self) -> ShownCall {
        self@
    }
}

/// What is shown of a call of a tool.
pub open spec fn shown_call(c: ToolCallModel) -> ShownCall {
    (
        c.id,
        c.name,
        if c.arguments is Null {
            None
        } else {
            Some(c.arguments)
        },
    )
}

/// What is shown of a message.
#[derive(Debug, PartialEq, Eq)]
pub struct MessageView {
    pub role: String,
    pub content: String,
    pub tool_calls: Vec<ToolCallView>,
}

/// What is shown of a message.
#[verifier::ext_equal]
pub struct ShownMessage {
    pub role: Seq<char>,
    pub content: Seq<char>,
    pub tool_calls: Seq<ShownCall>,
}

impl View for MessageView {
    type V = ShownMessage;

    open spec fn view(&self) -> ShownMessage {
        ShownMessage {
            role: self.role@,
            content: self.content@,
            tool_calls: self.tool_calls.deep_view(),
        }
    }
}

impl DeepView for MessageView {
    type V = ShownMessage;

    open spec fn deep_view(&self) -> ShownMessage {
        self@
    }
}

/// What is shown of a message.
pub open spec fn shown_message(m: MessageModel) -> ShownMessage {
    ShownMessage {
        role: llm::role_name(m.role),
        content: m.text(),
        tool_calls: m.calls().map_values(|c: ToolCallModel| shown_call(c)),
    }
}

/// What is shown of calls of tools.
fn show_calls(calls: &[ToolCall]) -> (r: Vec<ToolCallView>)
    ensures
        r.deep_view() == calls.deep_view().map_values(|c: ToolCallModel| shown_call(c)),
{
    let mut out: Vec<ToolCallView> = Vec::new();
    let mut i: usize = 0;
    while i < calls.len()
        invariant
            i <= calls@.len(),
            out@.len() == i,
            forall|k: int| 0 <= k < i ==> (#[trigger] out@[k])@ == shown_call(calls@[k]@),
        decreases calls@.len() - i,
    {
        let arguments = if calls[i].arguments.is_null() {
            None
        } else {
            Some(calls[i].arguments.clone())
        };
        out.push(
            ToolCallView { id: calls[i].id.clone(), name: calls[i].name.clone(), arguments },
        );
        i += 1;
    }
    assert(out.deep_view() =~= calls.deep_view().map_values(|c: ToolCallModel| shown_call(c)));
    out
}

impl MessageView {
    /// What is shown of a message.
    pub fn of(m: &ChatMessage) -> (r: Self)
        ensures
            r@ == shown_message(m@),
    {
        let content = match &m.content {
            Some(c) => c.clone(),
            None => String::new(),
        };
        let tool_calls = match &m.tool_calls {
            Some(c) => show_calls(c.as_slice()),
            None => Vec::new(),
        };
        assert(tool_calls.deep_view() =~= shown_message(m@).tool_calls);
        MessageView { role: String::from_str(m.role.name()), content, tool_calls }
    }
}

/// How many calls of tools are shown of a conversation.
pub const SHOWN_TRACE: usize = 50;

/// What is shown of a conversation.
#[derive(Debug, PartialEq, Eq)]
pub struct SessionDetail {
    pub session_id: String,
    pub title: String,
    pub updated_at: u64,
    pub messages: Vec<MessageView>,
    pub tool_trace: ToolTrace,
}

impl SessionDetail {
    /// What is shown of a conversation.
    pub fn of(session_id: String, msgs: &[ChatMessage], now_secs: u64) -> (r: Self)
        ensures
            r.session_id == session_id,
            r.title@ == session::title_of(msgs.deep_view()),
            r.updated_at == now_secs,
            r.messages.deep_view() == msgs.deep_view().map_values(
                |m: MessageModel| shown_message(m),
            ),
            r.tool_trace@ == result::trace_of(
                msgs.deep_view(),
                msgs.deep_view(),
                SHOWN_TRACE as int,
            ),
    {
        let mut messages: Vec<MessageView> = Vec::new();
        let mut i: usize = 0;
        while i < msgs.len()
            invariant
                i <= msgs@.len(),
                messages@.len() == i,
                forall|k: int| 0 <= k < i ==> (#[trigger] messages@[k])@ == shown_message(msgs@[k]@),
            decreases msgs@.len() - i,
        {
            messages.push(MessageView::of(&msgs[i]));
            i += 1;
        }
        assert(messages.deep_view() =~= msgs.deep_view().map_values(
            |m: MessageModel| shown_message(m),
        ));
        SessionDetail {
            session_id,
            title: derive_title(msgs),
            updated_at: now_secs,
            messages,
            tool_trace: ToolTrace::from_messages(msgs, SHOWN_TRACE),
        }
    }
}

/// A message is shown with who says it, what is said, and the calls that it makes, each with
/// its name and its arguments.
pub proof fn a_message_is_shown(m: MessageModel, i: int)
    ensures
        shown_message(m).role == llm::role_name(m.role),
        m.content matches Some(t) ==> shown_message(m).content == t,
        m.content is None ==> shown_message(m).content.len() == 0,
        shown_message(m).tool_calls.len() == m.calls().len(),
        0 <= i < m.calls().len() ==> {
            let c = m.calls()[i];
            let s = shown_message(m).tool_calls[i];
            &&& s.0 == c.id
            &&& s.1 == c.name
            &&& !(c.arguments is Null) ==> s.2 == Some(c.arguments)
            &&& c.arguments is Null ==> s.2 is None
        },
{
}

/// An agent is shown with its state, its isolation, its goal and its parent; a capability with
/// its kind, its description and where it comes from.
pub proof fn what_is_shown_of_agents_and_capabilities(
    a: AgentView,
    h: AgentHandle,
    c: CapabilityView,
    s: CapabilitySpec,
)
    requires
        a.is_of(h),
        c.is_of(s),
    ensures
        a.agent_id == h.agent_id,
        a.goal@ == h.goal@,
        a.state@ == lifecycle::state_name(h.state),
        a.isolation@ == isolation::level_name(h.isolation),
        a.parent_agent_id == h.parent_agent_id,
        a.created_at@ == h.created_at.text(),
        c.id == s.id,
        c.name@ == s.name@,
        c.description@ == s.description@,
        s.kind == CapabilityKind::Tool ==> c.kind@ == "Tool"@,
        s.kind == CapabilityKind::Agent ==> c.kind@ == "Agent"@,
        s.kind == CapabilityKind::Resource ==> c.kind@ == "Resource"@,
        s.source@ matches SourceModel::Native { module } ==> text::starts_with(
            c.source@,
            "Native { module: "@,
        ) && text::contains(c.source@, errors::quoted(module)),
        s.source@ matches SourceModel::Mcp { server_url, tool_name } ==> text::contains(
            c.source@,
            errors::quoted(server_url),
        ) && text::contains(c.source@, errors::quoted(tool_name)),
        s.source@ matches SourceModel::A2a { agent_url, agent_card } ==> text::contains(
            c.source@,
            errors::quoted(agent_url),
        ) && text::contains(c.source@, codec::debugged(agent_card)),
{
    broadcast use text::group_parts;

    match s.source@ {
        SourceModel::Native { module } => {
            let head = "Native { module: "@;
            assert(c.source@.subrange(0, head.len() as int) =~= head);
            assert(text::contains(c.source@, errors::quoted(module)));
        },
        SourceModel::Mcp { server_url, tool_name } => {
            assert(text::contains(c.source@, errors::quoted(server_url)));
            assert(text::contains(c.source@, errors::quoted(tool_name)));
        },
        SourceModel::A2a { agent_url, agent_card } => {
            assert(text::contains(c.source@, errors::quoted(agent_url)));
            assert(text::contains(c.source@, codec::debugged(agent_card)));
        },
    }
}

} // verus!

//! What is asked over the network.
use vstd::prelude::*;

use crate::agent_loop::resume::ResumeCommand;
use crate::ids;
use crate::ids::{fresh_id, id_to_text};
use crate::isolation;
use crate::isolation::{AgentLaunchRequest, IsolationLevel, RequestModel};
use crate::json::{Json, JsonModel};
use crate::llm::{clone_opt, ChatMessage, MessageModel};
use crate::message::{AgentMessage, MessageContent};
use crate::scope::MemoryScope;
use crate::session;
use crate::session::make_title_message;
use crate::text;

verus! {

broadcast use crate::seqs::group_views;

/// A message to an agent.
#[derive(Debug, PartialEq, Eq)]
pub struct ChatRequest {
    /// What is said; empty where the conversation is only woken.
    pub message: String,
    pub session_id: Option<String>,
    pub isolation: Option<String>,
    pub tenant_id: Option<String>,
    pub user_id: Option<String>,
}

impl ChatRequest {
    /// The conversation that the message belongs to: the one that is named, or a new one.
    pub fn session(&self) -> (r: String)
        ensures
            match self.session_id {
                Some(s) if s@.len() > 0 => r@ == s@,
                _ => exists|id: u128| r@ == #[trigger] ids::id_text(id),
            },
    {
        match &self.session_id {
            Some(s) if s.as_str().unicode_len() > 0 => s.clone(),
            _ => id_to_text(fresh_id()),
        }
    }

    /// On whose behalf the message is sent.
    pub fn scope(&self) -> (r: MemoryScope)
        ensures
            r@ == (self.tenant_id.deep_view(), self.user_id.deep_view()),
    {
        MemoryScope::new(clone_opt(&self.tenant_id), clone_opt(&self.user_id))
    }
}

/// The wish to launch an agent.
#[derive(Debug, PartialEq, Eq)]
pub struct LaunchRequest {
    pub goal: String,
    pub context: String,
    pub isolation: Option<String>,
}

/// The level that is named, or the weakest where none is named that there is.
pub open spec fn named_level(name: Option<Seq<char>>) -> IsolationLevel {
    match name {
        Some(s) => match isolation::level_of(s) {
            Some(l) => l,
            None => IsolationLevel::Coroutine,
        },
        None => IsolationLevel::Coroutine,
    }
}

impl LaunchRequest {
    /// What the agent is launched with.
    pub fn launch(self) -> (r: AgentLaunchRequest)
        ensures
            r@ == (RequestModel {
                capability_id: None,
                goal: self.goal@,
                context: self.context@,
                toolsets: Seq::empty(),
                isolation: named_level(self.isolation.deep_view()),
                timeout_ms: None,
                parent_agent_id: None,
                config: JsonModel::Null,
                delegate_depth: 0,
                scope: None,
                parent_toolsets: Seq::empty(),
                session_id: None,
            }),
    {
        let mut req = AgentLaunchRequest::default();
        req.isolation = IsolationLevel::parse_or_default(&self.isolation);
        req.goal = self.goal;
        req.context = self.context;
        assert(req.toolsets.deep_view() =~= Seq::empty());
        assert(req.parent_toolsets.deep_view() =~= Seq::empty());
        req
    }
}

/// A text for an agent that is running.
#[derive(Debug, PartialEq, Eq)]
pub struct SendMessageRequest {
    pub content: String,
}

impl SendMessageRequest {
    /// The message to that agent, which comes from no agent.
    pub fn to_agent(self, id: u128) -> (r: AgentMessage)
        ensures
            r.is_plain(0, id, MessageContent::Text(self.content)),
    {
        AgentMessage::new(0, id, MessageContent::Text(self.content))
    }
}

/// The wish to give a conversation another title.
#[derive(Debug, PartialEq, Eq)]
pub struct RenameRequest {
    pub title: String,
}

/// A conversation with a title.
pub open spec fn renamed(msgs: Seq<MessageModel>, title: Seq<char>) -> Seq<MessageModel> {
    seq![session::title_message(title)] + msgs
}

impl RenameRequest {
    /// Gives a conversation the title.
    pub fn rename(&self, msgs: &mut Vec<ChatMessage>)
        ensures
            final(msgs).deep_view() == renamed(old(msgs).deep_view(), self.title@),
    {
        msgs.insert(0, make_title_message(self.title.as_str()));
        assert(msgs.deep_view() =~= renamed(old(msgs).deep_view(), self.title@));
    }
}

/// Whose conversations are meant.
#[derive(Debug, PartialEq, Eq)]
pub struct SessionQuery {
    pub tenant_id: Option<String>,
    pub user_id: Option<String>,
}

impl SessionQuery {
    /// The scope that is meant.
    pub fn scope(&self) -> (r: MemoryScope)
        ensures
            r@ == (self.tenant_id.deep_view(), self.user_id.deep_view()),
    {
        MemoryScope::new(clone_opt(&self.tenant_id), clone_opt(&self.user_id))
    }
}

/// The answer of a human to a run that has asked.
#[derive(Debug, PartialEq, Eq)]
pub struct ResumeRequest {
    pub checkpoint_id: String,
    pub thread_id: String,
    pub resume_value: Json,
    pub tenant_id: Option<String>,
    pub user_id: Option<String>,
}

impl ResumeRequest {
    /// On whose behalf the answer is given.
    pub fn scope(&self) -> (r: MemoryScope)
        ensures
            r@ == (self.tenant_id.deep_view(), self.user_id.deep_view()),
    {
        MemoryScope::new(clone_opt(&self.tenant_id), clone_opt(&self.user_id))
    }

    /// The answer.
    pub fn command(self) -> (r: ResumeCommand)
        ensures
            r == (ResumeCommand {
                thread_id: self.thread_id,
                checkpoint_id: self.checkpoint_id,
                resume_value: self.resume_value,
            }),
    {
        ResumeCommand::new(self.thread_id, self.checkpoint_id, self.resume_value)
    }
}

/// The wish to take up a run from a checkpoint, or from its last one.
#[derive(Debug, PartialEq, Eq)]
pub struct ResumeFromCheckpointRequest {
    pub thread_id: String,
    pub checkpoint_id: Option<String>,
    pub tenant_id: Option<String>,
    pub user_id: Option<String>,
}

impl ResumeFromCheckpointRequest {
    /// On whose behalf the run is taken up.
    pub fn scope(&self) -> (r: MemoryScope)
        ensures
            r@ == (self.tenant_id.deep_view(), self.user_id.deep_view()),
    {
        MemoryScope::new(clone_opt(&self.tenant_id), clone_opt(&self.user_id))
    }
}

/// A conversation that is given a title has it, whatever it was called before, and keeps
/// all that was said.
pub proof fn a_renamed_conversation_has_its_title(msgs: Seq<MessageModel>, title: Seq<char>)
    ensures
        session::title_of(renamed(msgs, title)) == text::trim(title),
        renamed(msgs, title).skip(1) == msgs,
{
    session::a_given_title_is_the_title(title, msgs);
    assert(renamed(msgs, title).skip(1) =~= msgs);
}

/// The isolation of an agent is the one that is named, and that of the same process where
/// none is named or the name is not known.
pub proof fn isolation_is_as_named(name: Seq<char>)
    ensures
        named_level(None) == IsolationLevel::Coroutine,
        isolation::level_of(name) matches Some(l) ==> named_level(Some(name)) == l,
        isolation::level_of(name) is None ==> named_level(Some(name))
            == IsolationLevel::Coroutine,
{
}

} // verus!

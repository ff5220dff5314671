//! What agents send each other.
use vstd::prelude::*;

use crate::clock::Timestamp;
use crate::ids::fresh_id;
use crate::json::Json;

verus! {

/// What a message says.
#[derive(Debug, PartialEq, Eq)]
pub enum MessageContent {
    Text(String),
    Json(Json),
    ToolCall { name: String, args: Json },
    ToolResult { call_id: String, result: Json },
    StreamChunk(Json),
}

/// A message of one agent to another.
#[derive(Debug, PartialEq, Eq)]
pub struct AgentMessage {
    pub id: u128,
    pub from: u128,
    pub to: u128,
    pub content: MessageContent,
    pub correlation_id: Option<String>,
    pub metadata: Vec<(String, String)>,
}

impl AgentMessage {
    /// A message with that identifier that answers no other.
    pub open spec fn is_plain(self, from: u128, to: u128, content: MessageContent) -> bool {
        &&& self.from == from
        &&& self.to == to
        &&& self.content == content
        &&& self.correlation_id is None
        &&& self.metadata@.len() == 0
    }

    /// A message with a fresh identifier that answers no other.
    pub fn new(from: u128, to: u128, content: MessageContent) -> (r: Self)
        ensures
            r.is_plain(from, to, content),
    {
        AgentMessage {
            id: fresh_id(),
            from,
            to,
            content,
            correlation_id: None,
            metadata: Vec::new(),
        }
    }
}

/// The answer to a message.
#[derive(Debug, PartialEq, Eq)]
pub struct AgentResponse {
    pub message_id: u128,
    pub content: MessageContent,
}

/// Something that has happened.
#[derive(Debug, PartialEq, Eq)]
pub struct Event {
    pub topic: String,
    pub payload: Json,
    pub timestamp: Timestamp,
}

/// A message goes from one agent to the other with what it says, and answers none.
pub proof fn a_message_goes_where_it_is_sent(
    m: AgentMessage,
    from: u128,
    to: u128,
    content: MessageContent,
)
    requires
        m.is_plain(from, to, content),
    ensures
        m.from == from,
        m.to == to,
        m.content == content,
        m.correlation_id is None,
        m.metadata@.len() == 0,
{
}

} // verus!

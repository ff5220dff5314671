//! The messages and tool calls that pass between an agent and its model.
use vstd::prelude::*;

use crate::json::{Json, JsonModel};

verus! {

/// Who a message is from.
#[derive(Debug, Clone, Copy, PartialEq, Eq, Structural)]
pub enum Role {
    System,
    User,
    Assistant,
    Tool,
}

/// The name of a role.
pub open spec fn role_name(role: Role) -> Seq<char> {
    match role {
        Role::System => "system"@,
        Role::User => "user"@,
        Role::Assistant => "assistant"@,
        Role::Tool => "tool"@,
    }
}

impl Role {
    /// The name of the role.
    pub fn name(&self) -> (r: &'static str)
        ensures
            r@ == role_name(*self),
    {
        match self {
            Role::System => "system",
            Role::User => "user",
            Role::Assistant => "assistant",
            Role::Tool => "tool",
        }
    }
}

/// A call of a tool that the model asks for.
#[derive(Debug, PartialEq, Eq)]
pub struct ToolCall {
    pub id: String,
    pub name: String,
    pub arguments: Json,
}

/// What a tool call is.
#[verifier::ext_equal]
pub struct ToolCallModel {
    pub id: Seq<char>,
    pub name: Seq<char>,
    pub arguments: JsonModel,
}

impl View for ToolCall {
    type V = ToolCallModel;

    open spec fn view(&self) -> ToolCallModel {
        ToolCallModel { id: self.id@, name: self.name@, arguments: self.arguments@ }
    }
}

impl DeepView for ToolCall {
    type V = ToolCallModel;

    open spec fn deep_view(&self) -> ToolCallModel {
        self@
    }
}

impl Clone for ToolCall {
    fn clone(&self) -> (r: Self)
        ensures
            r@ == self@,
    {
        ToolCall {
            id: self.id.clone(),
            name: self.name.clone(),
            arguments: self.arguments.clone(),
        }
    }
}

/// One message of a conversation.
#[derive(Debug, PartialEq, Eq)]
pub struct ChatMessage {
    pub role: Role,
    pub content: Option<String>,
    pub tool_calls: Option<Vec<ToolCall>>,
    pub tool_call_id: Option<String>,
}

/// What a message is.
#[verifier::ext_equal]
pub struct MessageModel {
    pub role: Role,
    pub content: Option<Seq<char>>,
    pub tool_calls: Option<Seq<ToolCallModel>>,
    pub tool_call_id: Option<Seq<char>>,
}

impl View for ChatMessage {
    type V = MessageModel;

    open spec fn view(&self) -> MessageModel {
        MessageModel {
            role: self.role,
            content: self.content.deep_view(),
            tool_calls: self.tool_calls.deep_view(),
            tool_call_id: self.tool_call_id.deep_view(),
        }
    }
}

impl DeepView for ChatMessage {
    type V = MessageModel;

    open spec fn deep_view(&self) -> MessageModel {
        self@
    }
}

impl MessageModel {
    /// The text of the message; empty where it has none.
    pub open spec fn text(self) -> Seq<char> {
        match self.content {
            Some(t) => t,
            None => Seq::empty(),
        }
    }

    /// The tool calls of the message; none where it has none.
    pub open spec fn calls(self) -> Seq<ToolCallModel> {
        match self.tool_calls {
            Some(c) => c,
            None => Seq::empty(),
        }
    }

    /// The message with another text.
    pub open spec fn with_content(self, content: Option<Seq<char>>) -> MessageModel {
        MessageModel { content, ..self }
    }
}

/// A message of that role with a text and nothing else.
pub open spec fn plain_message(role: Role, text: Seq<char>) -> MessageModel {
    MessageModel { role, content: Some(text), tool_calls: None, tool_call_id: None }
}

/// A copy of an optional text.
pub fn clone_opt(s: &Option<String>) -> (r: Option<String>)
    ensures
        r.deep_view() == s.deep_view(),
        r == *s,
{
    match s {
        Some(t) => Some(t.clone()),
        None => None,
    }
}

/// A copy of a list of texts.
pub fn clone_texts(v: &[String]) -> (r: Vec<String>)
    ensures
        r.deep_view() == v.deep_view(),
        r@ == v@,
{
    let mut out: Vec<String> = Vec::new();
    let mut i: usize = 0;
    while i < v.len()
        invariant
            i <= v@.len(),
            out@ == v@.take(i as int),
        decreases v@.len() - i,
    {
        out.push(v[i].clone());
        i += 1;
        assert(v@.take(i as int) =~= v@.take(i - 1).push(v@[i - 1]));
    }
    assert(v@.take(i as int) =~= v@);
    assert(out.deep_view() =~= v.deep_view());
    out
}

/// A copy of a list of tool calls.
pub fn clone_calls(v: &[ToolCall]) -> (r: Vec<ToolCall>)
    ensures
        r.deep_view() == v.deep_view(),
{
    let mut out: Vec<ToolCall> = Vec::new();
    let mut i: usize = 0;
    while i < v.len()
        invariant
            i <= v@.len(),
            out@.len() == i,
            forall|j: int| 0 <= j < i ==> (#[trigger] out@[j])@ == v@[j]@,
        decreases v@.len() - i,
    {
        out.push(v[i].clone());
        i += 1;
    }
    assert(out.deep_view() =~= v.deep_view());
    out
}

/// A copy of a conversation.
pub fn clone_messages(v: &[ChatMessage]) -> (r: Vec<ChatMessage>)
    ensures
        r.deep_view() == v.deep_view(),
{
    let mut out: Vec<ChatMessage> = Vec::new();
    let mut i: usize = 0;
    while i < v.len()
        invariant
            i <= v@.len(),
            out@.len() == i,
            forall|j: int| 0 <= j < i ==> (#[trigger] out@[j])@ == v@[j]@,
        decreases v@.len() - i,
    {
        out.push(v[i].clone());
        i += 1;
    }
    assert(out.deep_view() =~= v.deep_view());
    out
}

impl Clone for ChatMessage {
    fn clone(&self) -> (r: Self)
        ensures
            r@ == self@,
    {
        let tool_calls = match &self.tool_calls {
            Some(c) => Some(clone_calls(c.as_slice())),
            None => None,
        };
        assert(tool_calls.deep_view() == self.tool_calls.deep_view());
        ChatMessage {
            role: self.role,
            content: clone_opt(&self.content),
            tool_calls,
            tool_call_id: clone_opt(&self.tool_call_id),
        }
    }
}

impl ChatMessage {
    /// A message of the system.
    pub fn system(text: String) -> (r: Self)
        ensures
            r@ == plain_message(Role::System, text@),
    {
        ChatMessage { role: Role::System, content: Some(text), tool_calls: None, tool_call_id: None }
    }

    /// A message of the user.
    pub fn user(text: String) -> (r: Self)
        ensures
            r@ == plain_message(Role::User, text@),
    {
        ChatMessage { role: Role::User, content: Some(text), tool_calls: None, tool_call_id: None }
    }

    /// A message of the model.
    pub fn assistant(text: String) -> (r: Self)
        ensures
            r@ == plain_message(Role::Assistant, text@),
    {
        ChatMessage {
            role: Role::Assistant,
            content: Some(text),
            tool_calls: None,
            tool_call_id: None,
        }
    }

    /// The result of a tool call.
    pub fn tool(tool_call_id: String, text: String) -> (r: Self)
        ensures
            r@ == tool_message(tool_call_id@, text@),
    {
        ChatMessage {
            role: Role::Tool,
            content: Some(text),
            tool_calls: None,
            tool_call_id: Some(tool_call_id),
        }
    }
}

/// The result of a tool call.
pub open spec fn tool_message(tool_call_id: Seq<char>, text: Seq<char>) -> MessageModel {
    MessageModel {
        role: Role::Tool,
        content: Some(text),
        tool_calls: None,
        tool_call_id: Some(tool_call_id),
    }
}

/// A tool as it is offered to the model.
#[derive(Debug, PartialEq, Eq)]
pub struct ToolDefinition {
    pub name: String,
    pub description: String,
    pub parameters: Json,
}

/// What a tool definition is.
#[verifier::ext_equal]
pub struct ToolDefinitionModel {
    pub name: Seq<char>,
    pub description: Seq<char>,
    pub parameters: JsonModel,
}

impl View for ToolDefinition {
    type V = ToolDefinitionModel;

    open spec fn view(&self) -> ToolDefinitionModel {
        ToolDefinitionModel {
            name: self.name@,
            description: self.description@,
            parameters: self.parameters@,
        }
    }
}

impl DeepView for ToolDefinition {
    type V = ToolDefinitionModel;

    open spec fn deep_view(&self) -> ToolDefinitionModel {
        self@
    }
}

impl Clone for ToolDefinition {
    fn clone(&self) -> (r: Self)
        ensures
            r@ == self@,
    {
        ToolDefinition {
            name: self.name.clone(),
            description: self.description.clone(),
            parameters: self.parameters.clone(),
        }
    }
}

/// A message of the model that calls tools.
pub open spec fn calling_message(calls: Seq<ToolCallModel>) -> MessageModel {
    MessageModel {
        role: Role::Assistant,
        content: None,
        tool_calls: Some(calls),
        tool_call_id: None,
    }
}

impl ChatMessage {
    /// A message of the model that calls tools.
    pub fn assistant_with_tool_calls(calls: Vec<ToolCall>) -> (r: Self)
        ensures
            r@ == calling_message(calls.deep_view()),
    {
        ChatMessage {
            role: Role::Assistant,
            content: None,
            tool_calls: Some(calls),
            tool_call_id: None,
        }
    }
}

/// How many tokens a call of the model took.
#[derive(Debug, Clone, Copy, PartialEq, Eq, Structural)]
pub struct TokenUsage {
    pub prompt_tokens: usize,
    pub completion_tokens: usize,
}

/// What the model answers.
#[derive(Debug, PartialEq, Eq)]
pub struct ChatResponse {
    pub content: Option<String>,
    pub tool_calls: Vec<ToolCall>,
    pub usage: Option<TokenUsage>,
}

/// A message says what it is given, in the role of who says it; a result belongs to its call,
/// and a message that calls has its calls.
pub proof fn messages_say_what_they_are_given(
    role: Role,
    said: Seq<char>,
    id: Seq<char>,
    calls: Seq<ToolCallModel>,
)
    ensures
        plain_message(role, said).role == role,
        plain_message(role, said).text() == said,
        plain_message(role, said).calls().len() == 0,
        plain_message(role, said).tool_call_id is None,
        tool_message(id, said).role == Role::Tool,
        tool_message(id, said).text() == said,
        tool_message(id, said).tool_call_id == Some(id),
        tool_message(id, said).calls().len() == 0,
        calling_message(calls).role == Role::Assistant,
        calling_message(calls).calls() == calls,
        calling_message(calls).content is None,
{
}

/// The roles are told apart by their names.
pub proof fn roles_have_their_names(a: Role, b: Role)
    ensures
        role_name(Role::System) == "system"@,
        role_name(Role::User) == "user"@,
        role_name(Role::Assistant) == "assistant"@,
        role_name(Role::Tool) == "tool"@,
        role_name(a) == role_name(b) ==> a == b,
{
    reveal_strlit("system");
    reveal_strlit("user");
    reveal_strlit("assistant");
    reveal_strlit("tool");
    assert("system"@.len() == 6);
    assert("user"@.len() == 4);
    assert("assistant"@.len() == 9);
    assert("tool"@.len() == 4);
    assert("tool"@[0] == 't');
    assert("user"@[0] == 'u');
}

} // verus!

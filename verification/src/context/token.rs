//! How many tokens a conversation takes: a rough estimate, and what the provider
//! last reported.
use vstd::prelude::*;

use crate::json::codec;
use crate::json::codec::to_text;
use crate::llm;
use crate::llm::{ChatMessage, MessageModel, ToolCall, ToolCallModel};

verus! {

/// A count as far as a machine word holds it.
pub open spec fn word(n: int) -> int {
    if n <= usize::MAX {
        n
    } else {
        usize::MAX as int
    }
}

/// The characters of the names and arguments of tool calls.
pub open spec fn call_chars(calls: Seq<ToolCallModel>) -> int
    decreases calls.len(),
{
    if calls.len() == 0 {
        0
    } else {
        call_chars(calls.drop_last()) + calls.last().name.len() + codec::compact(
            calls.last().arguments,
        ).len()
    }
}

/// The characters of a message: its role, its text, its tool calls and four for its
/// frame.
pub open spec fn message_chars(m: MessageModel) -> int {
    llm::role_name(m.role).len() + m.text().len() + call_chars(m.calls()) + 4
}

/// The characters of all messages.
pub open spec fn total_chars(msgs: Seq<MessageModel>) -> int
    decreases msgs.len(),
{
    if msgs.len() == 0 {
        0
    } else {
        total_chars(msgs.drop_last()) + message_chars(msgs.last())
    }
}

/// The estimate for a conversation: one token for every four characters, rounded up.
pub open spec fn tokens_of(msgs: Seq<MessageModel>) -> int {
    (word(total_chars(msgs)) + 3) / 4
}

/// Character counts are not negative.
pub proof fn call_chars_nonneg(calls: Seq<ToolCallModel>)
    ensures
        call_chars(calls) >= 0,
    decreases calls.len(),
{
    if calls.len() > 0 {
        call_chars_nonneg(calls.drop_last());
    }
}

/// Character counts are not negative.
pub proof fn total_chars_nonneg(msgs: Seq<MessageModel>)
    ensures
        total_chars(msgs) >= 0,
    decreases msgs.len(),
{
    if msgs.len() > 0 {
        total_chars_nonneg(msgs.drop_last());
        call_chars_nonneg(msgs.last().calls());
    }
}

/// The characters of the names and arguments of tool calls.
fn count_call_chars(calls: &[ToolCall]) -> (r: usize)
    ensures
        r == word(call_chars(calls.deep_view())),
{
    let mut sum: usize = 0;
    let mut i: usize = 0;
    let ghost all = calls.deep_view();
    while i < calls.len()
        invariant
            i <= calls@.len(),
            all == calls.deep_view(),
            all.len() == calls@.len(),
            sum == word(call_chars(all.take(i as int))),
        decreases calls@.len() - i,
    {
        let name: usize = calls[i].name.as_str().unicode_len();
        let text = to_text(&calls[i].arguments);
        let args: usize = text.as_str().unicode_len();
        proof {
            assert(all.take(i + 1).drop_last() =~= all.take(i as int));
            call_chars_nonneg(all.take(i as int));
        }
        sum = sum.saturating_add(name).saturating_add(args);
        i += 1;
    }
    assert(all.take(i as int) =~= all);
    sum
}

/// The characters of a message.
fn count_message_chars(msg: &ChatMessage) -> (r: usize)
    ensures
        r == word(message_chars(msg@)),
{
    let content: usize = match &msg.content {
        Some(c) => c.as_str().unicode_len(),
        None => 0,
    };
    let tools: usize = match &msg.tool_calls {
        Some(calls) => {
            let list = calls.as_slice();
            assert(list.deep_view() =~= calls.deep_view());
            count_call_chars(list)
        },
        None => 0,
    };
    let role: usize = msg.role.name().unicode_len();
    proof {
        call_chars_nonneg(msg@.calls());
        assert(msg@.tool_calls is None ==> msg@.calls().len() == 0);
    }
    role.saturating_add(content).saturating_add(tools).saturating_add(4)
}

/// The estimated tokens of a conversation.
pub fn estimate_tokens(messages: &[ChatMessage]) -> (r: usize)
    ensures
        r == tokens_of(messages.deep_view()),
{
    let mut sum: usize = 0;
    let mut i: usize = 0;
    let ghost all = messages.deep_view();
    while i < messages.len()
        invariant
            i <= messages@.len(),
            all == messages.deep_view(),
            all.len() == messages@.len(),
            sum == word(total_chars(all.take(i as int))),
        decreases messages@.len() - i,
    {
        let n: usize = count_message_chars(&messages[i]);
        proof {
            assert(all.take(i + 1).drop_last() =~= all.take(i as int));
            total_chars_nonneg(all.take(i as int));
            call_chars_nonneg(all[i as int].calls());
        }
        sum = sum.saturating_add(n);
        i += 1;
    }
    assert(all.take(i as int) =~= all);
    let rest: usize = if sum % 4 == 0 { 0 } else { 1 };
    sum / 4 + rest
}

/// The tokens of the last exchange as the provider reported them.
#[derive(Debug, Clone, Copy, PartialEq, Eq, Structural)]
pub struct TokenTracker {
    pub last_prompt_tokens: usize,
    pub last_completion_tokens: usize,
    pub last_total_tokens: usize,
    pub last_message_count: usize,
}

impl TokenTracker {
    /// A tracker that has seen no report.
    pub fn new() -> (r: Self)
        ensures
            r == (TokenTracker {
                last_prompt_tokens: 0,
                last_completion_tokens: 0,
                last_total_tokens: 0,
                last_message_count: 0,
            }),
    {
        TokenTracker {
            last_prompt_tokens: 0,
            last_completion_tokens: 0,
            last_total_tokens: 0,
            last_message_count: 0,
        }
    }

    /// Takes up the counts of a response.
    pub fn update_from_response(&mut self, prompt_tokens: usize, completion_tokens: usize)
        requires
            prompt_tokens + completion_tokens <= usize::MAX,
        ensures
            *final(self) == (TokenTracker {
                last_prompt_tokens: prompt_tokens,
                last_completion_tokens: completion_tokens,
                last_total_tokens: (prompt_tokens + completion_tokens) as usize,
                last_message_count: old(self).last_message_count,
            }),
    {
        self.last_prompt_tokens = prompt_tokens;
        self.last_completion_tokens = completion_tokens;
        self.last_total_tokens = prompt_tokens + completion_tokens;
    }

    /// Notes how many messages the conversation had when the counts were taken up.
    pub fn note_message_count(&mut self, count: usize)
        ensures
            *final(self) == (TokenTracker { last_message_count: count, ..*old(self) }),
    {
        self.last_message_count = count;
    }

    /// Forgets the prompt count, for a conversation whose messages have changed.
    pub fn reset_cache(&mut self)
        ensures
            *final(self) == (TokenTracker {
                last_prompt_tokens: 0,
                last_message_count: 0,
                ..*old(self)
            }),
    {
        self.last_prompt_tokens = 0;
        self.last_message_count = 0;
    }

    /// The tokens to judge a conversation by: the reported count while it is of these
    /// messages, the estimate otherwise.
    pub open spec fn tokens(self, msgs: Seq<MessageModel>) -> int {
        if self.last_prompt_tokens > 0 && msgs.len() == self.last_message_count {
            self.last_prompt_tokens as int
        } else {
            tokens_of(msgs)
        }
    }

    /// The tokens to judge a conversation by.
    pub fn current_tokens(&self, messages: &[ChatMessage]) -> (r: usize)
        ensures
            r == self.tokens(messages.deep_view()),
    {
        if self.last_prompt_tokens > 0 && messages.len() == self.last_message_count {
            self.last_prompt_tokens
        } else {
            estimate_tokens(messages)
        }
    }
}

/// The tokens of a conversation are a quarter of its characters, rounded up: of what is said,
/// of who says it, of the names and arguments of calls, and a few for each message.
pub proof fn tokens_are_a_quarter_of_the_characters(
    msgs: Seq<MessageModel>,
    m: MessageModel,
    calls: Seq<ToolCallModel>,
    c: ToolCallModel,
)
    ensures
        total_chars(Seq::empty()) == 0,
        total_chars(msgs.push(m)) == total_chars(msgs) + m.text().len() + llm::role_name(
            m.role,
        ).len() + call_chars(m.calls()) + 4,
        call_chars(Seq::empty()) == 0,
        call_chars(calls.push(c)) == call_chars(calls) + c.name.len() + codec::compact(
            c.arguments,
        ).len(),
        total_chars(msgs) <= usize::MAX ==> 4 * tokens_of(msgs) - 3 <= total_chars(msgs) <= 4
            * tokens_of(msgs),
{
    assert(msgs.push(m).drop_last() =~= msgs);
    assert(calls.push(c).drop_last() =~= calls);
}

/// What the service has reported is believed of the conversation that it was reported of;
/// of every other one the tokens are estimated.
pub proof fn reports_are_believed_of_their_conversation(t: TokenTracker, msgs: Seq<MessageModel>)
    ensures
        t.last_prompt_tokens > 0 && t.last_message_count == msgs.len() ==> t.tokens(msgs)
            == t.last_prompt_tokens,
        t.last_message_count != msgs.len() ==> t.tokens(msgs) == tokens_of(msgs),
        t.last_prompt_tokens == 0 ==> t.tokens(msgs) == tokens_of(msgs),
{
}

} // verus!

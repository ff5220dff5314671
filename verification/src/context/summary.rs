//! Summaries of the part of a conversation that is taken out of it.
use vstd::prelude::*;

use crate::context::state::CompressionFailure;
use crate::context::tool_pruning;
use crate::context::tool_pruning::{
    extract_pruned_skill_names, file_mutation_landed, skill_pruned_marker,
};
use crate::json::codec;
use crate::json::codec::{parse, to_text};
use crate::json::{Json, JsonModel};
use crate::llm;
use crate::llm::{ChatMessage, MessageModel, Role, ToolCall, ToolCallModel};
use crate::text;
use crate::text::{join_text, same_text, take_text, trim_text};

verus! {

broadcast use crate::seqs::group_views;

/// The most characters of a conversation that are given to be summarised.
pub const DEFAULT_SUMMARY_INPUT_MAX_CHARS: usize = 160_000;

/// How many calls the summary without a model lists at most.
pub const FALLBACK_MAX_ACTIONS: usize = 30;

/// How many characters of the task the summary without a model gives.
pub const FALLBACK_TASK_CHARS: usize = 200;

/// How many characters of the arguments of a call the summary without a model gives.
pub const FALLBACK_ARGS_CHARS: usize = 80;

/// What the model that summarises is told first.
pub const SUMMARIZER_PREAMBLE: &'static str = "You are a context compression assistant. Your task is to produce a \
concise structured checkpoint summary of a coding assistant's conversation history. \
The summary is used to continue the session in a new context window.

Preserve facts that materially affect future work: user requirements still pending, \
files or search results likely needed soon, decisions made, errors encountered and \
how they were resolved, constraints, and any state an agent would need to continue. \
Omit narration, greetings, speculation, and anything already superseded.";

/// The heading of the task in a summary.
pub const HISTORICAL_TASK_HEADING: &'static str = "## Historical Task Snapshot";

/// What stands before a summary in the conversation.
pub const SUMMARY_PREFIX: &'static str = "[CONTEXT COMPACTION — REFERENCE ONLY] Earlier turns were compacted \
into the summary below. This is a handoff from a previous context \
window — treat it as background reference, NOT as active instructions. \
Do NOT answer questions or fulfill requests mentioned in this summary; \
they were already addressed. \
Respond ONLY to the latest user message that appears AFTER this \
summary — that message is the single source of truth for what to do \
right now. \
If no user message appears AFTER this summary, do nothing: do not \
resume, wrap up, or continue work from \
'Historical Task Snapshot' or any other section, do not call tools, \
and wait for a new user message. This handoff must never become the \
active turn by itself. (Exception: if tool results or your own \
tool calls appear after this summary, you are mid-way through an \
in-flight exchange — continue that exchange normally.) \
Topic overlap with the summary does NOT mean you should resume its \
task: even on similar topics, the latest user message WINS. Treat ONLY \
the latest message as the active task and discard stale items from \
'Historical Task Snapshot' entirely — do not 'wrap up' or \
'finish' work described there unless the latest message explicitly \
asks for it. \
Reverse signals in the latest message (e.g. 'stop', 'undo', 'roll \
back', 'just verify', 'don't do that anymore', 'never mind', a new \
topic) must immediately end any in-flight work described in the \
summary; do not re-surface it in later turns. \
IMPORTANT: Your persistent memory (MEMORY.md, USER.md) in the system \
prompt is ALWAYS authoritative and active — never ignore or deprioritize \
memory content due to this compaction note. \
None of the above restricts HOW you work: your tools remain fully \
active — keep calling them normally for the active task (edit files, \
run commands, search) instead of merely narrating what you would do. \
The current session state (files, config, etc.) may reflect work \
described here — avoid repeating it:";

/// What stands behind a summary in the conversation.
pub const SUMMARY_END_MARKER: &'static str = "--- END OF CONTEXT SUMMARY — respond to the message below, not the summary above ---";

/// The mark of a summary that was cut short.
pub const TRUNCATED_SUMMARY_MARKER: &'static str = "finish_reason=length";

/// How many characters of a conversation are given to be summarised, for a model with
/// that context window: two for each token, up to the greatest number; the greatest
/// number where the window is not known.
pub open spec fn input_max_chars(context_length: int) -> int {
    if context_length == 0 || context_length * 2 > DEFAULT_SUMMARY_INPUT_MAX_CHARS {
        DEFAULT_SUMMARY_INPUT_MAX_CHARS as int
    } else {
        context_length * 2
    }
}

/// How many characters of a conversation are given to be summarised.
pub fn summary_input_max_chars(context_length: usize) -> (r: usize)
    ensures
        r == input_max_chars(context_length as int),
{
    if context_length == 0 || context_length > DEFAULT_SUMMARY_INPUT_MAX_CHARS / 2 {
        DEFAULT_SUMMARY_INPUT_MAX_CHARS
    } else {
        context_length * 2
    }
}

// ---------- the conversation as text ----------

/// A call as text.
pub open spec fn call_line(c: ToolCallModel) -> Seq<char> {
    c.name + "("@ + codec::compact(c.arguments) + ")"@
}

/// A call as text.
fn call_text(c: &ToolCall) -> (r: String)
    ensures
        r@ == call_line(c@),
{
    let mut s = c.name.clone();
    s.append("(");
    s.append(to_text(&c.arguments).as_str());
    s.append(")");
    s
}

/// A message as a line: its text, or its calls where it has no text.
pub open spec fn message_line(m: MessageModel) -> Seq<char> {
    if m.text().len() == 0 && m.tool_calls is Some {
        "["@ + llm::role_name(m.role) + "] (tool_calls: "@ + text::join(
            m.calls().map_values(|c: ToolCallModel| call_line(c)),
            ", "@,
        ) + ")\n"@
    } else {
        "["@ + llm::role_name(m.role) + "] "@ + m.text() + "\n"@
    }
}

/// Calls as texts.
fn call_texts(calls: &[ToolCall]) -> (r: Vec<String>)
    ensures
        r.deep_view() == calls.deep_view().map_values(|c: ToolCallModel| call_line(c)),
{
    let mut out: Vec<String> = Vec::new();
    let mut i: usize = 0;
    while i < calls.len()
        invariant
            i <= calls@.len(),
            out@.len() == i,
            forall|j: int| 0 <= j < i ==> (#[trigger] out@[j])@ == call_line(calls@[j]@),
        decreases calls@.len() - i,
    {
        out.push(call_text(&calls[i]));
        i += 1;
    }
    assert(out.deep_view() =~= calls.deep_view().map_values(|c: ToolCallModel| call_line(c)));
    out
}

/// A message as a line.
fn line_of(msg: &ChatMessage) -> (r: String)
    ensures
        r@ == message_line(msg@),
{
    let mut s = String::from_str("[");
    s.append(msg.role.name());
    let empty = match &msg.content {
        Some(c) => c.as_str().is_empty(),
        None => true,
    };
    if empty {
        if let Some(calls) = &msg.tool_calls {
            s.append("] (tool_calls: ");
            s.append(join_text(call_texts(calls.as_slice()).as_slice(), ", ").as_str());
            s.append(")\n");
            return s;
        }
    }
    s.append("] ");
    if let Some(c) = &msg.content {
        s.append(c.as_str());
    } else {
        assert(s@ + Seq::<char>::empty() =~= s@);
    }
    s.append("\n");
    s
}

/// The lines of the messages from `i` on, cut with a note once they exceed `max`
/// characters, of which `used` are taken.
pub open spec fn transcript(msgs: Seq<MessageModel>, i: int, used: int, max: int) -> Seq<char>
    decreases msgs.len() - i,
{
    if i < 0 || i >= msgs.len() {
        Seq::empty()
    } else {
        let line = message_line(msgs[i]);
        if used + line.len() > max {
            line.take(max - used) + "\n... (conversation truncated for summary)"@
        } else {
            line + transcript(msgs, i + 1, used + line.len(), max)
        }
    }
}

/// The conversation as text, of at most so many characters and the note.
pub fn format_messages_for_summary(messages: &[ChatMessage], max_chars: usize) -> (r: String)
    ensures
        r@ == transcript(messages.deep_view(), 0, 0, max_chars as int),
{
    let ghost msgs = messages.deep_view();
    let ghost max = max_chars as int;
    let mut out = String::new();
    let mut total: usize = 0;
    let mut i: usize = 0;
    assert(out@ + transcript(msgs, 0, 0, max) =~= transcript(msgs, 0, 0, max));
    while i < messages.len()
        invariant
            i <= messages@.len(),
            msgs == messages.deep_view(),
            max == max_chars,
            total <= max_chars,
            out@ + transcript(msgs, i as int, total as int, max) == transcript(msgs, 0, 0, max),
        decreases messages@.len() - i,
    {
        let line = line_of(&messages[i]);
        let n: usize = line.as_str().unicode_len();
        assert(msgs[i as int] == messages@[i as int]@);
        if n > max_chars - total {
            let part = take_text(line.as_str(), max_chars - total);
            let ghost before = out@;
            out.append(part.as_str());
            out.append("\n... (conversation truncated for summary)");
            assert(out@ =~= before + (line@.take(max - total)
                + "\n... (conversation truncated for summary)"@));
            return out;
        }
        let ghost before = out@;
        out.append(line.as_str());
        assert(out@ + transcript(msgs, i + 1, total + n, max) =~= before + (line@ + transcript(
            msgs,
            i + 1,
            total + n,
            max,
        )));
        total = total + n;
        i += 1;
    }
    assert(out@ + transcript(msgs, i as int, total as int, max) =~= out@);
    out
}

/// The text of the last user message; empty where there is none.
pub open spec fn latest_user(msgs: Seq<MessageModel>) -> Seq<char>
    decreases msgs.len(),
{
    if msgs.len() == 0 {
        Seq::empty()
    } else if msgs.last().role == Role::User {
        msgs.last().text()
    } else {
        latest_user(msgs.drop_last())
    }
}

/// The text of the last user message.
pub fn latest_user_message(messages: &[ChatMessage]) -> (r: String)
    ensures
        r@ == latest_user(messages.deep_view()),
{
    let ghost msgs = messages.deep_view();
    let mut n: usize = messages.len();
    assert(msgs.take(n as int) =~= msgs);
    while n > 0
        invariant
            n <= messages@.len(),
            msgs == messages.deep_view(),
            msgs.len() == messages@.len(),
            latest_user(msgs) == latest_user(msgs.take(n as int)),
        decreases n,
    {
        assert(msgs.take(n as int).last() == messages@[n - 1]@);
        assert(msgs.take(n as int).drop_last() =~= msgs.take(n - 1));
        if messages[n - 1].role == Role::User {
            return match &messages[n - 1].content {
                Some(c) => c.clone(),
                None => String::new(),
            };
        }
        n -= 1;
    }
    String::new()
}

/// Whether a call has been answered: some result carries its identifier.
pub open spec fn answered(msgs: Seq<MessageModel>, id: Seq<char>) -> bool {
    exists|i: int|
        0 <= i < msgs.len() && (#[trigger] msgs[i]).role == Role::Tool && msgs[i].tool_call_id
            == Some(id)
}

/// Whether a call has been answered.
fn is_answered(messages: &[ChatMessage], id: &str) -> (r: bool)
    ensures
        r == answered(messages.deep_view(), id@),
{
    let ghost msgs = messages.deep_view();
    let mut i: usize = 0;
    while i < messages.len()
        invariant
            i <= messages@.len(),
            msgs == messages.deep_view(),
            forall|j: int|
                0 <= j < i ==> !((#[trigger] msgs[j]).role == Role::Tool && msgs[j].tool_call_id
                    == Some(id@)),
        decreases messages@.len() - i,
    {
        assert(msgs[i as int] == messages@[i as int]@);
        if messages[i].role == Role::Tool {
            if let Some(t) = &messages[i].tool_call_id {
                if same_text(t.as_str(), id) {
                    return true;
                }
            }
        }
        i += 1;
    }
    false
}

/// The calls that the model has asked for, in order.
pub open spec fn asked_calls(msgs: Seq<MessageModel>) -> Seq<ToolCallModel>
    decreases msgs.len(),
{
    if msgs.len() == 0 {
        Seq::empty()
    } else if msgs.last().role == Role::Assistant {
        asked_calls(msgs.drop_last()) + msgs.last().calls()
    } else {
        asked_calls(msgs.drop_last())
    }
}

/// The calls that the model has asked for and that have not been answered, as texts.
pub open spec fn pending_calls(msgs: Seq<MessageModel>) -> Seq<Seq<char>> {
    asked_calls(msgs).filter(|c: ToolCallModel| !answered(msgs, c.id)).map_values(
        |c: ToolCallModel| call_line(c),
    )
}

/// The calls that the model has asked for, in order.
fn collect_calls(messages: &[ChatMessage]) -> (r: Vec<ToolCall>)
    ensures
        r.deep_view() == asked_calls(messages.deep_view()),
{
    let ghost msgs = messages.deep_view();
    let mut out: Vec<ToolCall> = Vec::new();
    let mut i: usize = 0;
    while i < messages.len()
        invariant
            i <= messages@.len(),
            msgs == messages.deep_view(),
            msgs.len() == messages@.len(),
            out.deep_view() == asked_calls(msgs.take(i as int)),
        decreases messages@.len() - i,
    {
        assert(msgs.take(i + 1).drop_last() =~= msgs.take(i as int));
        assert(msgs.take(i + 1).last() == messages@[i as int]@);
        let ghost before = out.deep_view();
        if messages[i].role == Role::Assistant {
            if let Some(calls) = &messages[i].tool_calls {
                let ghost all = calls.deep_view();
                let mut k: usize = 0;
                assert(before + all.take(0) =~= before);
                while k < calls.len()
                    invariant
                        k <= calls@.len(),
                        all == calls.deep_view(),
                        all.len() == calls@.len(),
                        out.deep_view() == before + all.take(k as int),
                    decreases calls@.len() - k,
                {
                    out.push(calls[k].clone());
                    k += 1;
                    assert(before + all.take(k as int) =~= (before + all.take(k - 1)).push(
                        all[k - 1],
                    ));
                }
                assert(all.take(k as int) =~= all);
            } else {
                assert(before + Seq::<ToolCallModel>::empty() =~= before);
            }
        }
        i += 1;
    }
    assert(msgs.take(i as int) =~= msgs);
    out
}

/// The calls that have not been answered, as texts.
pub fn uncompleted_tool_calls(messages: &[ChatMessage]) -> (r: Vec<String>)
    ensures
        r.deep_view() == pending_calls(messages.deep_view()),
{
    let ghost msgs = messages.deep_view();
    let ghost open = |c: ToolCallModel| !answered(msgs, c.id);
    let ghost line = |c: ToolCallModel| call_line(c);
    let calls = collect_calls(messages);
    let ghost all = calls.deep_view();
    let mut out: Vec<String> = Vec::new();
    let mut i: usize = 0;
    assert(all.take(0).filter(open).map_values(line) =~= Seq::<Seq<char>>::empty());
    while i < calls.len()
        invariant
            i <= calls@.len(),
            msgs == messages.deep_view(),
            all == calls.deep_view(),
            all.len() == calls@.len(),
            open == (|c: ToolCallModel| !answered(msgs, c.id)),
            line == (|c: ToolCallModel| call_line(c)),
            out.deep_view() == all.take(i as int).filter(open).map_values(line),
        decreases calls@.len() - i,
    {
        proof {
            reveal(Seq::filter);
            assert(all.take(i + 1).drop_last() =~= all.take(i as int));
            let kept = all.take(i as int).filter(open);
            assert(kept.push(all[i as int]).map_values(line) =~= kept.map_values(line).push(
                line(all[i as int]),
            ));
        }
        if !is_answered(messages, calls[i].id.as_str()) {
            out.push(call_text(&calls[i]));
        }
        i += 1;
    }
    assert(all.take(i as int) =~= all);
    out
}

// ---------- what the model is asked ----------

/// A section of the prompt, left out where its text is blank.
pub open spec fn optional_section(heading: Seq<char>, body: Option<Seq<char>>) -> Seq<char> {
    match body {
        Some(t) if text::trim(t).len() > 0 => heading + t + "\n\n"@,
        _ => Seq::empty(),
    }
}

/// A section of the prompt, left out where its text is blank.
fn section(heading: &str, body: Option<&str>) -> (r: String)
    ensures
        r@ == optional_section(heading@, body.deep_view()),
{
    match body {
        Some(t) => {
            if trim_text(t).as_str().is_empty() {
                String::new()
            } else {
                let mut s = String::from_str(heading);
                s.append(t);
                s.append("\n\n");
                s
            }
        },
        None => String::new(),
    }
}

/// A section of the prompt, left out where it has no text.
pub open spec fn noted_section(heading: Seq<char>, body: Seq<char>) -> Seq<char> {
    if body.len() == 0 {
        Seq::empty()
    } else {
        heading + body + "\n"@
    }
}

/// A section of the prompt that lists items, left out where there are none.
pub open spec fn list_section(
    heading: Seq<char>,
    items: Seq<Seq<char>>,
    sep: Seq<char>,
) -> Seq<char> {
    if items.len() == 0 {
        Seq::empty()
    } else {
        heading + text::join(items, sep) + "\n"@
    }
}

/// A section of the prompt that lists items, left out where there are none.
fn listed(heading: &str, items: &[String], sep: &str) -> (r: String)
    ensures
        r@ == list_section(heading@, items.deep_view(), sep@),
{
    if items.len() == 0 {
        String::new()
    } else {
        let mut s = String::from_str(heading);
        s.append(join_text(items, sep).as_str());
        s.append("\n");
        s
    }
}

/// The structure that a summary is to have.
pub const SUMMARY_STRUCTURE: &'static str = "\n\
<What the user set out to do. One or two sentences. If superseded, note it.>\n\n\
## Completed Actions\n\
<Key actions already done, especially file edits, commands run, and their outcomes. \
Compact bullet list.>\n\n\
## Active State\n\
<Files/tabs/session state that exists now and may be needed. Note errors and fixes. \
Use bullets.>\n\n\
## Open Questions\n\
<Unresolved issues or pending decisions — keep only truly open ones.>";

/// The section that repeats the marks of cleared skills, left out where there are
/// none.
pub open spec fn skill_section(names: Seq<Seq<char>>) -> Seq<char> {
    if names.len() == 0 {
        Seq::empty()
    } else {
        "\n\n## Pruned Skills\n"@ + tool_pruning::marker_lines(names)
    }
}

/// The section that repeats the marks of cleared skills.
fn skills(names: &[String]) -> (r: String)
    ensures
        r@ == skill_section(names.deep_view()),
{
    if names.len() == 0 {
        return String::new();
    }
    let ghost all = names.deep_view();
    let mut s = String::from_str("\n\n## Pruned Skills\n");
    let ghost start = s@;
    let mut i: usize = 0;
    assert(start + tool_pruning::marker_lines(all.take(0)) =~= start);
    while i < names.len()
        invariant
            i <= names@.len(),
            all == names.deep_view(),
            all.len() == names@.len(),
            s@ == start + tool_pruning::marker_lines(all.take(i as int)),
        decreases names@.len() - i,
    {
        s.append(skill_pruned_marker(names[i].as_str()).as_str());
        s.append("\n");
        i += 1;
        assert(all.take(i as int).drop_last() =~= all.take(i - 1));
        assert(s@ =~= start + (tool_pruning::marker_lines(all.take(i - 1))
            + tool_pruning::skill_marker(all[i - 1]) + "\n"@));
    }
    assert(all.take(i as int) =~= all);
    s
}

/// What the model is asked: the preamble, the previous summary and the memory where
/// there are any, the conversation, what is under way in it, and the structure that
/// the summary is to have.
pub open spec fn summary_prompt(
    msgs: Seq<MessageModel>,
    previous_summary: Option<Seq<char>>,
    memory_context: Option<Seq<char>>,
    max_input_chars: int,
) -> Seq<char> {
    let conversation = transcript(msgs, 0, 0, max_input_chars);
    let skills = tool_pruning::pruned_skill_names(conversation);
    SUMMARIZER_PREAMBLE@ + "\n\n"@ + optional_section(
        "### Previous summary (update iteratively, do not restart from scratch):\n"@,
        previous_summary,
    ) + optional_section(
        "### Context from memory (authoritative, preserve if relevant):\n"@,
        memory_context,
    ) + "### Conversation to summarize:\n"@ + conversation + "\n"@ + noted_section(
        "\n### Current task (latest user message, already being worked on):\n"@,
        latest_user(msgs),
    ) + list_section(
        "\n### Uncompleted tool calls (assistant requested but no result yet):\n"@,
        pending_calls(msgs),
        "\n"@,
    ) + list_section(
        "\n### Skills whose content was pruned (preserve the [SKILL_PRUNED] markers verbatim):\n"@,
        skills,
        ", "@,
    ) + "\nCreate a structured checkpoint summary with this exact structure:\n"@ + HISTORICAL_TASK_HEADING@ + SUMMARY_STRUCTURE@ + skill_section(skills)
}

/// What the model is asked to get a summary.
pub fn build_summary_prompt(
    messages_to_summarize: &[ChatMessage],
    previous_summary: Option<&str>,
    memory_context: Option<&str>,
    max_input_chars: usize,
) -> (r: String)
    ensures
        r@ == summary_prompt(
            messages_to_summarize.deep_view(),
            previous_summary.deep_view(),
            memory_context.deep_view(),
            max_input_chars as int,
        ),
{
    let conversation = format_messages_for_summary(messages_to_summarize, max_input_chars);
    let current_task = latest_user_message(messages_to_summarize);
    let pending = uncompleted_tool_calls(messages_to_summarize);
    let pruned_skills = extract_pruned_skill_names(conversation.as_str());
    let mut prompt = String::from_str(SUMMARIZER_PREAMBLE);
    prompt.append("\n\n");
    prompt.append(
        section(
            "### Previous summary (update iteratively, do not restart from scratch):\n",
            previous_summary,
        ).as_str(),
    );
    prompt.append(
        section(
            "### Context from memory (authoritative, preserve if relevant):\n",
            memory_context,
        ).as_str(),
    );
    prompt.append("### Conversation to summarize:\n");
    prompt.append(conversation.as_str());
    prompt.append("\n");
    let mut task = String::new();
    if !current_task.as_str().is_empty() {
        task = String::from_str(
            "\n### Current task (latest user message, already being worked on):\n",
        );
        task.append(current_task.as_str());
        task.append("\n");
    }
    prompt.append(task.as_str());
    prompt.append(
        listed(
            "\n### Uncompleted tool calls (assistant requested but no result yet):\n",
            pending.as_slice(),
            "\n",
        ).as_str(),
    );
    prompt.append(
        listed(
            "\n### Skills whose content was pruned (preserve the [SKILL_PRUNED] markers verbatim):\n",
            pruned_skills.as_slice(),
            ", ",
        ).as_str(),
    );
    prompt.append("\nCreate a structured checkpoint summary with this exact structure:\n");
    prompt.append(HISTORICAL_TASK_HEADING);
    prompt.append(SUMMARY_STRUCTURE);
    prompt.append(skills(pruned_skills.as_slice()).as_str());
    prompt
}

// ---------- what comes back ----------

/// A summary that a model has given.
#[derive(Debug, PartialEq, Eq)]
pub struct SummaryResult {
    /// The summary.
    pub text: String,
    /// Whether it was cut short, by the provider or here.
    pub truncated: bool,
}

/// The messages that ask for a summary.
pub fn summary_request(prompt: String) -> (r: Vec<ChatMessage>)
    ensures
        r.deep_view() == seq![
            llm::plain_message(
                Role::System,
                "You compress conversation history into structured checkpoints."@,
            ),
            llm::plain_message(Role::User, prompt@),
        ],
{
    let mut v: Vec<ChatMessage> = Vec::new();
    v.push(
        ChatMessage::system(
            String::from_str("You compress conversation history into structured checkpoints."),
        ),
    );
    v.push(ChatMessage::user(prompt));
    assert(v.deep_view() =~= seq![
        llm::plain_message(
            Role::System,
            "You compress conversation history into structured checkpoints."@,
        ),
        llm::plain_message(Role::User, prompt@),
    ]);
    v
}

/// The text of a reply without the space around it.
pub open spec fn reply_text(content: Option<Seq<char>>) -> Seq<char> {
    match content {
        Some(t) => text::trim(t),
        None => Seq::empty(),
    }
}

/// A summary cut to four characters for each token that it may have.
pub open spec fn fitted(summary: Seq<char>, max_tokens: int) -> Seq<char> {
    if summary.len() > max_tokens * 4 {
        summary.take(max_tokens * 4) + "\n... [summary truncated]"@
    } else {
        summary
    }
}

/// Takes a reply for a summary. A blank reply is none; a longer one than may be is
/// cut, and marked as cut short, as is one that the provider ended for its length.
pub fn accept_summary(
    content: &Option<String>,
    finish_reason: &Option<String>,
    max_tokens: usize,
) -> (r: Result<SummaryResult, CompressionFailure>)
    requires
        max_tokens * 4 <= usize::MAX,
    ensures
        match r {
            Ok(s) => {
                let summary = reply_text(content.deep_view());
                &&& summary.len() > 0
                &&& s.text@ == fitted(summary, max_tokens as int)
                &&& s.truncated == (finish_reason.deep_view() == Some("length"@) || summary.len()
                    > max_tokens * 4)
            },
            Err(e) => e is Empty && reply_text(content.deep_view()).len() == 0,
        },
{
    let summary = match content {
        Some(t) => trim_text(t.as_str()),
        None => String::new(),
    };
    if summary.as_str().is_empty() {
        return Err(CompressionFailure::Empty);
    }
    let finish_truncated = match finish_reason {
        Some(reason) => same_text(reason.as_str(), "length"),
        None => false,
    };
    let max_chars: usize = max_tokens * 4;
    if summary.as_str().unicode_len() > max_chars {
        let mut t = take_text(summary.as_str(), max_chars);
        t.append("\n... [summary truncated]");
        Ok(SummaryResult { text: t, truncated: true })
    } else {
        Ok(SummaryResult { text: summary, truncated: finish_truncated })
    }
}

// ---------- the summary without a model ----------

/// The text of the last result with the identifier.
pub open spec fn result_of(msgs: Seq<MessageModel>, id: Seq<char>) -> Option<Seq<char>>
    decreases msgs.len(),
{
    if msgs.len() == 0 {
        None
    } else if msgs.last().role == Role::Tool && msgs.last().tool_call_id == Some(id)
        && msgs.last().content is Some {
        msgs.last().content
    } else {
        result_of(msgs.drop_last(), id)
    }
}

/// The text of the last result with the identifier.
fn find_result(messages: &[ChatMessage], id: &str) -> (r: Option<String>)
    ensures
        r.deep_view() == result_of(messages.deep_view(), id@),
{
    let ghost msgs = messages.deep_view();
    let mut n: usize = messages.len();
    assert(msgs.take(n as int) =~= msgs);
    while n > 0
        invariant
            n <= messages@.len(),
            msgs == messages.deep_view(),
            msgs.len() == messages@.len(),
            result_of(msgs, id@) == result_of(msgs.take(n as int), id@),
        decreases n,
    {
        assert(msgs.take(n as int).last() == messages@[n - 1]@);
        assert(msgs.take(n as int).drop_last() =~= msgs.take(n - 1));
        if messages[n - 1].role == Role::Tool {
            if let Some(t) = &messages[n - 1].tool_call_id {
                if same_text(t.as_str(), id) {
                    if let Some(c) = &messages[n - 1].content {
                        return Some(c.clone());
                    }
                }
            }
        }
        n -= 1;
    }
    None
}

/// What a result reads as JSON; null where it is none.
pub open spec fn read_or_null(t: Seq<char>) -> JsonModel {
    match codec::parsed(t) {
        Ok(j) => j,
        Err(_) => JsonModel::Null,
    }
}

/// How a call went, by the text and the JSON of its result.
pub open spec fn action_status(
    tool_name: Seq<char>,
    result_text: Seq<char>,
    result: JsonModel,
) -> Seq<char> {
    if tool_pruning::mutation_landed(tool_name, result) {
        "✓ landed"@
    } else if result.get("error"@) is Some {
        "✗ error"@
    } else if result_text == "(no result)"@ {
        "⟳ pending"@
    } else {
        "done"@
    }
}

/// How a call went, by the text and the JSON of its result.
pub fn status_of_action(tool_name: &str, result_text: &str, result: &Json) -> (r: &'static str)
    ensures
        r@ == action_status(tool_name@, result_text@, result@),
{
    if file_mutation_landed(tool_name, result) {
        "✓ landed"
    } else if result.get("error").is_some() {
        "✗ error"
    } else if same_text(result_text, "(no result)") {
        "⟳ pending"
    } else {
        "done"
    }
}

/// The text of the result of a call, or the note that there is none.
pub open spec fn result_or_note(msgs: Seq<MessageModel>, id: Seq<char>) -> Seq<char> {
    match result_of(msgs, id) {
        Some(t) => t,
        None => "(no result)"@,
    }
}

/// A call and how it went, as a line.
pub open spec fn action_line(msgs: Seq<MessageModel>, c: ToolCallModel) -> Seq<char> {
    let t = result_or_note(msgs, c.id);
    "- "@ + c.name + "("@ + text::first_chars(
        codec::compact(c.arguments),
        FALLBACK_ARGS_CHARS as int,
    ) + ") — "@ + action_status(c.name, t, read_or_null(t)) + "\n"@
}

/// Calls and how they went, a line each.
pub open spec fn action_lines(msgs: Seq<MessageModel>, calls: Seq<ToolCallModel>) -> Seq<char>
    decreases calls.len(),
{
    if calls.len() == 0 {
        Seq::empty()
    } else {
        action_lines(msgs, calls.drop_last()) + action_line(msgs, calls.last())
    }
}

/// Items that are listed below another, a line each.
pub open spec fn nested_lines(items: Seq<Seq<char>>) -> Seq<char>
    decreases items.len(),
{
    if items.len() == 0 {
        Seq::empty()
    } else {
        nested_lines(items.drop_last()) + ("  - "@ + items.last() + "\n"@)
    }
}

/// The task of the summary without a model.
pub open spec fn fallback_task(msgs: Seq<MessageModel>) -> Seq<char> {
    let task = latest_user(msgs);
    if task.len() > 0 {
        text::first_chars(task, FALLBACK_TASK_CHARS as int) + "\n\n"@
    } else {
        "(no active task)\n\n"@
    }
}

/// The calls that the summary without a model lists.
pub open spec fn listed_calls(msgs: Seq<MessageModel>) -> Seq<ToolCallModel> {
    let calls = asked_calls(msgs);
    if calls.len() <= FALLBACK_MAX_ACTIONS {
        calls
    } else {
        calls.take(FALLBACK_MAX_ACTIONS as int)
    }
}

/// The actions of the summary without a model.
pub open spec fn fallback_actions(msgs: Seq<MessageModel>) -> Seq<char> {
    let calls = listed_calls(msgs);
    if calls.len() == 0 {
        "- (no tool calls recorded)\n"@
    } else {
        action_lines(msgs, calls)
    }
}

/// The open questions of the summary without a model.
pub open spec fn fallback_open(msgs: Seq<MessageModel>) -> Seq<char> {
    let pending = pending_calls(msgs);
    if pending.len() == 0 {
        Seq::empty()
    } else {
        "\n## Open Questions\n"@ + "- Pending tool calls without results:\n"@ + nested_lines(
            pending,
        )
    }
}

/// The summary without a model: the task, the calls with how they went, and the calls
/// that have no result yet.
pub open spec fn fallback_text(msgs: Seq<MessageModel>) -> Seq<char> {
    HISTORICAL_TASK_HEADING@ + "\n"@ + fallback_task(msgs) + "## Completed Actions\n"@
        + fallback_actions(msgs) + "\n## Active State\n"@
        + "- Context was compressed via fallback (LLM summary unavailable)\n"@ + fallback_open(
        msgs,
    )
}

/// A call and how it went, as a line.
fn line_of_action(messages: &[ChatMessage], call: &ToolCall) -> (r: String)
    ensures
        r@ == action_line(messages.deep_view(), call@),
{
    let result_text = match find_result(messages, call.id.as_str()) {
        Some(t) => t,
        None => String::from_str("(no result)"),
    };
    let result = match parse(result_text.as_str()) {
        Ok(j) => j,
        Err(_) => Json::Null,
    };
    let mut s = String::from_str("- ");
    s.append(call.name.as_str());
    s.append("(");
    s.append(take_text(to_text(&call.arguments).as_str(), FALLBACK_ARGS_CHARS).as_str());
    s.append(") — ");
    s.append(status_of_action(call.name.as_str(), result_text.as_str(), &result));
    s.append("\n");
    s
}

/// The actions of the summary without a model.
fn actions_of(messages: &[ChatMessage]) -> (r: String)
    ensures
        r@ == fallback_actions(messages.deep_view()),
{
    let ghost msgs = messages.deep_view();
    let calls = collect_calls(messages);
    let ghost all = calls.deep_view();
    if calls.len() == 0 {
        return String::from_str("- (no tool calls recorded)\n");
    }
    let mut s = String::new();
    let mut i: usize = 0;
    while i < calls.len() && i < FALLBACK_MAX_ACTIONS
        invariant
            i <= calls@.len(),
            i <= FALLBACK_MAX_ACTIONS,
            msgs == messages.deep_view(),
            all == calls.deep_view(),
            all.len() == calls@.len(),
            s@ == action_lines(msgs, all.take(i as int)),
        decreases calls@.len() - i,
    {
        s.append(line_of_action(messages, &calls[i]).as_str());
        i += 1;
        assert(all.take(i as int).drop_last() =~= all.take(i - 1));
        assert(all.take(i as int).last() == all[i - 1]);
    }
    assert(i == calls@.len() ==> all.take(i as int) =~= all);
    s
}

/// The open questions of the summary without a model.
fn open_of(messages: &[ChatMessage]) -> (r: String)
    ensures
        r@ == fallback_open(messages.deep_view()),
{
    let pending = uncompleted_tool_calls(messages);
    if pending.len() == 0 {
        return String::new();
    }
    let ghost all = pending.deep_view();
    let mut s = String::from_str("\n## Open Questions\n");
    s.append("- Pending tool calls without results:\n");
    let ghost start = s@;
    let mut i: usize = 0;
    assert(start + nested_lines(all.take(0)) =~= start);
    while i < pending.len()
        invariant
            i <= pending@.len(),
            all == pending.deep_view(),
            all.len() == pending@.len(),
            s@ == start + nested_lines(all.take(i as int)),
        decreases pending@.len() - i,
    {
        s.append("  - ");
        s.append(pending[i].as_str());
        s.append("\n");
        i += 1;
        assert(all.take(i as int).drop_last() =~= all.take(i - 1));
        assert(s@ =~= start + (nested_lines(all.take(i - 1)) + ("  - "@ + all[i - 1] + "\n"@)));
    }
    assert(all.take(i as int) =~= all);
    s
}

/// The summary without a model.
pub fn fallback_summary(messages_to_summarize: &[ChatMessage]) -> (r: String)
    ensures
        r@ == fallback_text(messages_to_summarize.deep_view()),
{
    let mut out = String::from_str(HISTORICAL_TASK_HEADING);
    out.append("\n");
    let task = latest_user_message(messages_to_summarize);
    let mut brief = String::from_str("(no active task)\n\n");
    if !task.as_str().is_empty() {
        brief = take_text(task.as_str(), FALLBACK_TASK_CHARS);
        brief.append("\n\n");
    }
    out.append(brief.as_str());
    out.append("## Completed Actions\n");
    out.append(actions_of(messages_to_summarize).as_str());
    out.append("\n## Active State\n");
    out.append("- Context was compressed via fallback (LLM summary unavailable)\n");
    out.append(open_of(messages_to_summarize).as_str());
    out
}

/// A summary as it stands in the conversation.
pub open spec fn framed_summary(summary: Seq<char>) -> Seq<char> {
    SUMMARY_PREFIX@ + "\n"@ + summary + "\n"@ + SUMMARY_END_MARKER@
}

/// Puts a summary between what stands before and behind it in the conversation.
pub fn assemble_summary_message(summary: &str) -> (r: String)
    ensures
        r@ == framed_summary(summary@),
{
    let mut s = String::from_str(SUMMARY_PREFIX);
    s.append("\n");
    s.append(summary);
    s.append("\n");
    s.append(SUMMARY_END_MARKER);
    s
}

// ---------- laws ----------

/// What follows of the lines: they are cut exactly where they exceed what is left, and then
/// no more than that and a note is given.
proof fn lines_are_bounded(msgs: Seq<MessageModel>, i: int, used: int, max: int)
    requires
        0 <= i,
        used <= max,
    ensures
        transcript(msgs, i, used, max).len() <= max - used + 42,
    decreases msgs.len() - i,
{
    reveal_strlit("\n... (conversation truncated for summary)");
    if i < msgs.len() {
        let line = message_line(msgs[i]);
        if used + line.len() <= max {
            lines_are_bounded(msgs, i + 1, used + line.len(), max);
        }
    }
}

/// Where all lines fit, those before `k` are what is given for them alone, and those from
/// `k` on follow.
proof fn lines_follow_one_another(msgs: Seq<MessageModel>, i: int, used: int, max: int, k: int)
    requires
        0 <= i <= k <= msgs.len(),
        used <= max,
        transcript(msgs, i, used, max).len() <= max - used,
    ensures
        ({
            let before = transcript(msgs.take(k), i, used, max);
            &&& used + before.len() <= max
            &&& transcript(msgs, i, used, max) == before + transcript(
                msgs,
                k,
                used + before.len(),
                max,
            )
        }),
    decreases k - i,
{
    reveal_strlit("\n... (conversation truncated for summary)");
    let before = transcript(msgs.take(k), i, used, max);
    if i == k {
        assert(before =~= Seq::<char>::empty());
        assert(before + transcript(msgs, k, used, max) =~= transcript(msgs, k, used, max));
    } else {
        let line = message_line(msgs[i]);
        assert(msgs.take(k)[i] == msgs[i]);
        assert(used + line.len() <= max);
        lines_follow_one_another(msgs, i + 1, used + line.len(), max, k);
        let rest = transcript(msgs.take(k), i + 1, used + line.len(), max);
        assert(before == line + rest);
        assert(line + (rest + transcript(msgs, k, used + line.len() + rest.len(), max)) =~= (line
            + rest) + transcript(msgs, k, used + before.len(), max));
    }
}

/// A conversation that is short enough is given to be summarised in full: behind what is
/// given of the messages before it stands every message, who says it and all that is said;
/// a message without a text is given by the calls that it makes.
pub proof fn all_that_is_said_is_given(msgs: Seq<MessageModel>, max: int, k: int)
    requires
        0 <= k < msgs.len(),
        0 <= max,
        transcript(msgs, 0, 0, max).len() <= max,
    ensures
        ({
            let all = transcript(msgs, 0, 0, max);
            let before = transcript(msgs.take(k), 0, 0, max);
            let m = msgs[k];
            &&& before.len() <= all.len()
            &&& all.take(before.len() as int) == before
            &&& m.content matches Some(said) ==> said.len() > 0 ==> text::occurs_at(
                all,
                "["@ + llm::role_name(m.role) + "] "@ + said + "\n"@,
                before.len() as int,
            )
            &&& m.content matches Some(said) ==> text::contains(all, said)
            &&& m.content is None ==> (m.tool_calls matches Some(calls) ==> forall|j: int|
                0 <= j < calls.len() ==> {
                    &&& text::contains(all, (#[trigger] calls[j]).name)
                    &&& text::contains(all, codec::compact(calls[j].arguments))
                })
        }),
{
    broadcast use text::group_parts;

    reveal_strlit("\n... (conversation truncated for summary)");
    let all = transcript(msgs, 0, 0, max);
    let before = transcript(msgs.take(k), 0, 0, max);
    let m = msgs[k];
    let line = message_line(m);
    lines_follow_one_another(msgs, 0, 0, max, k);
    let rest = transcript(msgs, k, before.len() as int, max);
    let behind = transcript(msgs, k + 1, (before.len() + line.len()) as int, max);
    assert(rest == line + behind);
    assert(all =~= before + line + behind);
    assert(all.take(before.len() as int) =~= before);
    if let Some(said) = m.content {
        if said.len() > 0 {
            assert(all.subrange(before.len() as int, (before.len() + line.len()) as int) =~= line);
            assert(line =~= "["@ + llm::role_name(m.role) + "] "@ + said + "\n"@);
            assert(text::contains(line, said));
        } else {
            assert(all.subrange(0, 0) =~= said);
            assert(text::occurs_at(all, said, 0));
        }
    } else if let Some(calls) = m.tool_calls {
        let parts = m.calls().map_values(|c: ToolCallModel| call_line(c));
        assert forall|j: int| 0 <= j < calls.len() implies {
            &&& text::contains(all, (#[trigger] calls[j]).name)
            &&& text::contains(all, codec::compact(calls[j].arguments))
        } by {
            let list = text::join(parts, ", "@);
            text::parts_stand_in_a_join(parts, ", "@, j);
            assert(parts[j] == call_line(calls[j]));
            let c = calls[j];
            assert(text::contains(parts[j], c.name));
            assert(text::contains(parts[j], codec::compact(c.arguments)));
            text::a_part_of_a_part(list, parts[j], c.name);
            text::a_part_of_a_part(list, parts[j], codec::compact(c.arguments));
            assert(text::contains(line, c.name));
            assert(text::contains(line, codec::compact(c.arguments)));
        }
    }
}

/// Of a conversation that is too long the beginning is given, as many characters as may
/// be, and a note; what is given does not depend on the limit otherwise.
proof fn the_limit_only_cuts(msgs: Seq<MessageModel>, i: int, used: int, max: int, more: int)
    requires
        0 <= i,
        used <= max <= more,
    ensures
        ({
            let short = transcript(msgs, i, used, max);
            let long = transcript(msgs, i, used, more);
            &&& short.len() <= max - used ==> short == long
            &&& short.len() > max - used ==> {
                &&& long.len() > max - used
                &&& short == long.take(max - used) + "\n... (conversation truncated for summary)"@
            }
        }),
    decreases msgs.len() - i,
{
    reveal_strlit("\n... (conversation truncated for summary)");
    if i < msgs.len() {
        let line = message_line(msgs[i]);
        let short = transcript(msgs, i, used, max);
        let long = transcript(msgs, i, used, more);
        if used + line.len() <= max {
            let a = transcript(msgs, i + 1, used + line.len(), max);
            let b = transcript(msgs, i + 1, used + line.len(), more);
            the_limit_only_cuts(msgs, i + 1, used + line.len(), max, more);
            assert(short == line + a && long == line + b);
            if short.len() > max - used {
                let left = max - used - line.len();
                assert(long.take(max - used) =~= line + b.take(left));
                assert(short =~= long.take(max - used)
                    + "\n... (conversation truncated for summary)"@);
            }
        } else if used + line.len() <= more {
            let b = transcript(msgs, i + 1, used + line.len(), more);
            assert(long.take(max - used) =~= line.take(max - used));
        } else {
            assert(long.take(max - used) =~= line.take(max - used));
        }
    }
}

/// Under a limit that is great enough all lines fit.
proof fn some_limit_is_great_enough(msgs: Seq<MessageModel>, i: int, used: int, max: int)
    requires
        0 <= i,
    ensures
        exists|more: int|
            max <= more && used <= more && (#[trigger] transcript(msgs, i, used, more)).len()
                <= more - used,
    decreases msgs.len() - i,
{
    let least = if max < used {
        used
    } else {
        max
    };
    if i < msgs.len() {
        let line = message_line(msgs[i]);
        some_limit_is_great_enough(msgs, i + 1, used + line.len(), least);
        let more = choose|more: int|
            least <= more && used + line.len() <= more && (#[trigger] transcript(
                msgs,
                i + 1,
                used + line.len(),
                more,
            )).len() <= more - (used + line.len());
        assert(transcript(msgs, i, used, more).len() <= more - used);
    } else {
        assert(transcript(msgs, i, used, least).len() <= least - used);
    }
}

/// A conversation that is too long is given up to the limit: its beginning, exactly as it is
/// given where there is room for all of it, and a note that it was cut.
pub proof fn a_long_conversation_is_given_from_its_beginning(msgs: Seq<MessageModel>, max: int)
    requires
        0 <= max,
    ensures
        ({
            let given = transcript(msgs, 0, 0, max);
            &&& given.len() <= max + 42
            &&& given.len() > max ==> exists|more: int|
                {
                    let all = #[trigger] transcript(msgs, 0, 0, more);
                    &&& max < all.len() <= more
                    &&& given.take(max) == all.take(max)
                    &&& text::ends_with(given, "\n... (conversation truncated for summary)"@)
                }
        }),
{
    lines_are_bounded(msgs, 0, 0, max);
    some_limit_is_great_enough(msgs, 0, 0, max);
    let more = choose|more: int|
        max <= more && 0 <= more && (#[trigger] transcript(msgs, 0, 0, more)).len() <= more - 0;
    the_limit_only_cuts(msgs, 0, 0, max, more);
    let given = transcript(msgs, 0, 0, max);
    let all = transcript(msgs, 0, 0, more);
    if given.len() > max {
        let note = "\n... (conversation truncated for summary)"@;
        assert(given.take(max) =~= all.take(max));
        assert(given.subrange(given.len() - note.len(), given.len() as int) =~= note);
    }
}

/// The last thing that the user has said is the one that no other follows; there is none
/// where the user has said nothing.
pub proof fn the_task_is_what_the_user_said_last(msgs: Seq<MessageModel>, k: int)
    requires
        -1 <= k,
        forall|j: int| k < j < msgs.len() ==> (#[trigger] msgs[j]).role != Role::User,
    ensures
        0 <= k < msgs.len() && msgs[k].role == Role::User ==> latest_user(msgs) == msgs[k].text(),
        k < 0 ==> latest_user(msgs) == Seq::<char>::empty(),
    decreases msgs.len(),
{
    if msgs.len() > 0 && k < msgs.len() - 1 {
        assert forall|j: int| k < j < msgs.drop_last().len() implies (
        #[trigger] msgs.drop_last()[j]).role != Role::User by {
            assert(msgs.drop_last()[j] == msgs[j]);
        }
        the_task_is_what_the_user_said_last(msgs.drop_last(), k);
    }
}

/// A call that a message of the model makes is among those that were asked for, and only
/// such calls are.
proof fn asked_calls_are_those_of_the_model(msgs: Seq<MessageModel>, c: ToolCallModel)
    ensures
        asked_calls(msgs).contains(c) == exists|k: int|
            0 <= k < msgs.len() && (#[trigger] msgs[k]).role == Role::Assistant
                && msgs[k].calls().contains(c),
    decreases msgs.len(),
{
    if msgs.len() > 0 {
        let rest = msgs.drop_last();
        asked_calls_are_those_of_the_model(rest, c);
        let a = asked_calls(rest);
        let b = msgs.last().calls();
        let all = asked_calls(msgs);
        if exists|k: int|
            0 <= k < msgs.len() && (#[trigger] msgs[k]).role == Role::Assistant
                && msgs[k].calls().contains(c) {
            let k = choose|k: int|
                0 <= k < msgs.len() && (#[trigger] msgs[k]).role == Role::Assistant
                    && msgs[k].calls().contains(c);
            if k < rest.len() {
                assert(rest[k] == msgs[k]);
                let i = choose|i: int| 0 <= i < a.len() && a[i] == c;
                assert(all[i] == c);
            } else {
                let i = choose|i: int| 0 <= i < b.len() && b[i] == c;
                assert(all[a.len() + i] == c);
            }
        }
        if all.contains(c) {
            let i = choose|i: int| 0 <= i < all.len() && all[i] == c;
            if i < a.len() {
                assert(a[i] == c);
                let k = choose|k: int|
                    0 <= k < rest.len() && (#[trigger] rest[k]).role == Role::Assistant
                        && rest[k].calls().contains(c);
                assert(msgs[k] == rest[k]);
            } else {
                assert(b[i - a.len()] == c);
                assert(msgs[msgs.len() - 1].calls().contains(c));
            }
        }
    }
}

/// A call of the model that no result answers is among those that are under way, with its
/// name and its arguments.
pub proof fn an_open_call_is_listed(msgs: Seq<MessageModel>, k: int, j: int)
    requires
        0 <= k < msgs.len(),
        msgs[k].role == Role::Assistant,
        msgs[k].tool_calls matches Some(calls) && 0 <= j < calls.len(),
        forall|i: int|
            0 <= i < msgs.len() ==> !((#[trigger] msgs[i]).role == Role::Tool
                && msgs[i].tool_call_id == Some(msgs[k].tool_calls->Some_0[j].id)),
    ensures
        ({
            let c = msgs[k].tool_calls->Some_0[j];
            pending_calls(msgs).contains(c.name + "("@ + codec::compact(c.arguments) + ")"@)
        }),
{
    let c = msgs[k].tool_calls->Some_0[j];
    let open = |c: ToolCallModel| !answered(msgs, c.id);
    let line = |c: ToolCallModel| call_line(c);
    assert(msgs[k].calls()[j] == c);
    asked_calls_are_those_of_the_model(msgs, c);
    let all = asked_calls(msgs);
    assert(open(c));
    assert(all.filter(open).contains(c));
    let p = choose|p: int| 0 <= p < all.filter(open).len() && all.filter(open)[p] == c;
    assert(pending_calls(msgs)[p] == line(c));
}

/// Only calls of the model that no result answers are listed as under way.
pub proof fn only_open_calls_are_listed(msgs: Seq<MessageModel>, p: int)
    requires
        0 <= p < pending_calls(msgs).len(),
    ensures
        exists|k: int, c: ToolCallModel|
            {
                &&& 0 <= k < msgs.len()
                &&& (#[trigger] msgs[k]).role == Role::Assistant
                &&& #[trigger] msgs[k].calls().contains(c)
                &&& pending_calls(msgs)[p] == c.name + "("@ + codec::compact(c.arguments) + ")"@
                &&& forall|i: int|
                    0 <= i < msgs.len() ==> !((#[trigger] msgs[i]).role == Role::Tool
                        && msgs[i].tool_call_id == Some(c.id))
            },
{
    let open = |c: ToolCallModel| !answered(msgs, c.id);
    let all = asked_calls(msgs);
    let c = all.filter(open)[p];
    assert(all.filter(open).contains(c));
    assert(open(c));
    all.lemma_filter_contains_rev(open, c);
    asked_calls_are_those_of_the_model(msgs, c);
    let k = choose|k: int|
        0 <= k < msgs.len() && (#[trigger] msgs[k]).role == Role::Assistant
            && msgs[k].calls().contains(c);
    assert(msgs[k].calls().contains(c));
}

/// The model that is asked for a summary is given what is given of the conversation, the
/// summary before it and what is remembered where these are not blank, what the user said
/// last, and every call that is under way.
pub proof fn the_prompt_gives_what_is_to_be_kept(
    msgs: Seq<MessageModel>,
    previous_summary: Option<Seq<char>>,
    memory_context: Option<Seq<char>>,
    max: int,
)
    ensures
        ({
            let prompt = summary_prompt(msgs, previous_summary, memory_context, max);
            &&& text::contains(prompt, transcript(msgs, 0, 0, max))
            &&& previous_summary matches Some(s) ==> text::trim(s).len() > 0 ==> text::contains(
                prompt,
                s,
            )
            &&& memory_context matches Some(s) ==> text::trim(s).len() > 0 ==> text::contains(
                prompt,
                s,
            )
            &&& latest_user(msgs).len() > 0 ==> text::contains(prompt, latest_user(msgs))
            &&& forall|p: int|
                0 <= p < pending_calls(msgs).len() ==> text::contains(
                    prompt,
                    #[trigger] pending_calls(msgs)[p],
                )
        }),
{
    broadcast use text::group_parts;

    let conversation = transcript(msgs, 0, 0, max);
    let skills = tool_pruning::pruned_skill_names(conversation);
    let prompt = summary_prompt(msgs, previous_summary, memory_context, max);
    let head = SUMMARIZER_PREAMBLE@ + "\n\n"@;
    let a = optional_section(
        "### Previous summary (update iteratively, do not restart from scratch):\n"@,
        previous_summary,
    );
    let b = optional_section(
        "### Context from memory (authoritative, preserve if relevant):\n"@,
        memory_context,
    );
    let c = noted_section(
        "\n### Current task (latest user message, already being worked on):\n"@,
        latest_user(msgs),
    );
    let d = list_section(
        "\n### Uncompleted tool calls (assistant requested but no result yet):\n"@,
        pending_calls(msgs),
        "\n"@,
    );
    let e = list_section(
        "\n### Skills whose content was pruned (preserve the [SKILL_PRUNED] markers verbatim):\n"@,
        skills,
        ", "@,
    ) + "\nCreate a structured checkpoint summary with this exact structure:\n"@
        + HISTORICAL_TASK_HEADING@ + SUMMARY_STRUCTURE@ + skill_section(skills);
    let front = head + a + b + "### Conversation to summarize:\n"@ + conversation + "\n"@ + c + d;
    assert(prompt =~= front + e);
    assert(text::contains(front, conversation));
    if let Some(s) = previous_summary {
        if text::trim(s).len() > 0 {
            assert(text::contains(a, s));
            assert(text::contains(front, s));
        }
    }
    if let Some(s) = memory_context {
        if text::trim(s).len() > 0 {
            assert(text::contains(b, s));
            assert(text::contains(front, s));
        }
    }
    if latest_user(msgs).len() > 0 {
        assert(text::contains(c, latest_user(msgs)));
        assert(text::contains(front, latest_user(msgs)));
    }
    assert forall|p: int| 0 <= p < pending_calls(msgs).len() implies text::contains(
        prompt,
        #[trigger] pending_calls(msgs)[p],
    ) by {
        text::parts_stand_in_a_join(pending_calls(msgs), "\n"@, p);
        assert(text::contains(d, pending_calls(msgs)[p]));
        assert(text::contains(front, pending_calls(msgs)[p]));
    }
}

/// Where a conversation is short enough, everything that is said in it stands in what the
/// model is asked.
pub proof fn the_prompt_gives_all_that_is_said(
    msgs: Seq<MessageModel>,
    previous_summary: Option<Seq<char>>,
    memory_context: Option<Seq<char>>,
    max: int,
    k: int,
)
    requires
        0 <= k < msgs.len(),
        0 <= max,
        transcript(msgs, 0, 0, max).len() <= max,
    ensures
        msgs[k].content matches Some(said) ==> text::contains(
            summary_prompt(msgs, previous_summary, memory_context, max),
            said,
        ),
{
    all_that_is_said_is_given(msgs, max, k);
    the_prompt_gives_what_is_to_be_kept(msgs, previous_summary, memory_context, max);
    if let Some(said) = msgs[k].content {
        text::a_part_of_a_part(
            summary_prompt(msgs, previous_summary, memory_context, max),
            transcript(msgs, 0, 0, max),
            said,
        );
    }
}

/// The model is given two characters for each token of its window, and never more than a
/// fixed number; that number where its window is not known.
pub proof fn what_is_given_fits_the_window(context_length: int)
    requires
        0 <= context_length,
    ensures
        0 < input_max_chars(context_length) <= 160_000,
        0 < context_length <= 80_000 ==> input_max_chars(context_length) == 2 * context_length,
        context_length == 0 || context_length > 80_000 ==> input_max_chars(context_length)
            == 160_000,
{
}

/// A summary is taken as it is, without the space around it, where it is no longer than it
/// may be; a longer one is cut behind its beginning, and says so.
pub proof fn a_summary_is_kept(summary: Seq<char>, max_tokens: int)
    requires
        0 <= max_tokens,
    ensures
        reply_text(Some(summary)) == text::trim(summary),
        reply_text(None) == Seq::<char>::empty(),
        summary.len() <= 4 * max_tokens ==> fitted(summary, max_tokens) == summary,
        summary.len() > 4 * max_tokens ==> {
            &&& fitted(summary, max_tokens).take(4 * max_tokens) == summary.take(4 * max_tokens)
            &&& text::contains(fitted(summary, max_tokens), "[summary truncated]"@)
        },
{
    if summary.len() > 4 * max_tokens {
        reveal_strlit("\n... [summary truncated]");
        reveal_strlit("[summary truncated]");
        let cut = fitted(summary, max_tokens);
        let note = "[summary truncated]"@;
        assert(cut.take(4 * max_tokens) =~= summary.take(4 * max_tokens));
        assert(cut.subrange(cut.len() - note.len(), cut.len() as int) =~= note);
        assert(text::occurs_at(cut, note, cut.len() - note.len()));
    }
}

/// The summary stands in the conversation between the text that says what it is and the
/// one that says where it ends.
pub proof fn a_summary_is_framed(summary: Seq<char>)
    ensures
        text::contains(framed_summary(summary), summary),
        text::starts_with(framed_summary(summary), SUMMARY_PREFIX@),
        text::ends_with(framed_summary(summary), SUMMARY_END_MARKER@),
{
    broadcast use text::group_parts;

    let f = framed_summary(summary);
    assert(f.subrange(0, SUMMARY_PREFIX@.len() as int) =~= SUMMARY_PREFIX@);
    assert(f.subrange(f.len() - SUMMARY_END_MARKER@.len(), f.len() as int)
        =~= SUMMARY_END_MARKER@);
}

/// The result of a call is the text of the last message that answers it; there is none
/// where no message does.
pub proof fn the_last_answer_is_the_result(msgs: Seq<MessageModel>, id: Seq<char>, k: int)
    requires
        -1 <= k,
        forall|j: int|
            k < j < msgs.len() ==> !((#[trigger] msgs[j]).role == Role::Tool
                && msgs[j].tool_call_id == Some(id) && msgs[j].content is Some),
    ensures
        0 <= k < msgs.len() && msgs[k].role == Role::Tool && msgs[k].tool_call_id == Some(id)
            && msgs[k].content is Some ==> result_of(msgs, id) == msgs[k].content,
        k < 0 ==> result_of(msgs, id) is None,
    decreases msgs.len(),
{
    if msgs.len() > 0 && k < msgs.len() - 1 {
        assert forall|j: int| k < j < msgs.drop_last().len() implies !((
        #[trigger] msgs.drop_last()[j]).role == Role::Tool && msgs.drop_last()[j].tool_call_id
            == Some(id) && msgs.drop_last()[j].content is Some) by {
            assert(msgs.drop_last()[j] == msgs[j]);
        }
        the_last_answer_is_the_result(msgs.drop_last(), id, k);
    }
}

/// How a call went is told by its result: an error is told as one, and a call without a
/// result as one that is under way, unless a change of a file has landed.
pub proof fn how_a_call_went_is_told(tool: Seq<char>, result_text: Seq<char>, result: JsonModel)
    ensures
        ({
            let landed = tool_pruning::mutation_landed(tool, result);
            let told = action_status(tool, result_text, result);
            &&& landed ==> told == "✓ landed"@
            &&& !landed && result.get("error"@) is Some ==> told == "✗ error"@
            &&& !landed && result.get("error"@) is None && result_text == "(no result)"@ ==> told
                == "⟳ pending"@
            &&& !landed && result.get("error"@) is None && result_text != "(no result)"@ ==> told
                == "done"@
        }),
{
}

/// The lines of calls hold the line of each of them.
proof fn action_lines_hold_each(msgs: Seq<MessageModel>, calls: Seq<ToolCallModel>, i: int)
    requires
        0 <= i < calls.len(),
    ensures
        text::contains(action_lines(msgs, calls), action_line(msgs, calls[i])),
    decreases calls.len(),
{
    broadcast use text::group_parts;

    if i < calls.len() - 1 {
        assert(calls.drop_last()[i] == calls[i]);
        action_lines_hold_each(msgs, calls.drop_last(), i);
    }
}

/// The lines of items hold each of them.
proof fn nested_lines_hold_each(items: Seq<Seq<char>>, i: int)
    requires
        0 <= i < items.len(),
    ensures
        text::contains(nested_lines(items), items[i]),
    decreases items.len(),
{
    broadcast use text::group_parts;

    if i < items.len() - 1 {
        assert(items.drop_last()[i] == items[i]);
        nested_lines_hold_each(items.drop_last(), i);
    }
}

/// The summary without a model gives the beginning of what the user said last, the first
/// calls of the model with how they went, and every call that is under way.
pub proof fn the_summary_without_a_model_keeps_the_task(msgs: Seq<MessageModel>)
    ensures
        ({
            let s = fallback_text(msgs);
            let task = latest_user(msgs);
            let calls = asked_calls(msgs);
            &&& 0 < task.len() <= 200 ==> text::contains(s, task)
            &&& task.len() > 200 ==> text::contains(s, task.take(200))
            &&& forall|i: int|
                0 <= i < calls.len() && i < 30 ==> {
                    let c = #[trigger] calls[i];
                    let t = match result_of(msgs, c.id) {
                        Some(t) => t,
                        None => "(no result)"@,
                    };
                    &&& text::contains(s, c.name)
                    &&& text::contains(
                        s,
                        ") — "@ + action_status(c.name, t, read_or_null(t)) + "\n"@,
                    )
                }
            &&& forall|p: int|
                0 <= p < pending_calls(msgs).len() ==> text::contains(
                    s,
                    #[trigger] pending_calls(msgs)[p],
                )
        }),
{
    broadcast use text::group_parts;

    let s = fallback_text(msgs);
    let task = latest_user(msgs);
    let calls = asked_calls(msgs);
    let a = fallback_task(msgs);
    let b = fallback_actions(msgs);
    let c = fallback_open(msgs);
    if task.len() > 0 {
        let brief = text::first_chars(task, 200);
        assert(text::contains(a, brief));
        assert(text::contains(s, brief));
    }
    assert forall|i: int| 0 <= i < calls.len() && i < 30 implies {
        let c = #[trigger] calls[i];
        let t = match result_of(msgs, c.id) {
            Some(t) => t,
            None => "(no result)"@,
        };
        &&& text::contains(s, c.name)
        &&& text::contains(s, ") — "@ + action_status(c.name, t, read_or_null(t)) + "\n"@)
    } by {
        let c = calls[i];
        let t = result_or_note(msgs, c.id);
        let listed = listed_calls(msgs);
        assert(listed[i] == c);
        let line = action_line(msgs, c);
        let status = ") — "@ + action_status(c.name, t, read_or_null(t)) + "\n"@;
        let args = text::first_chars(codec::compact(c.arguments), 80);
        assert(line =~= "- "@ + c.name + "("@ + args + status);
        assert(text::contains("- "@ + c.name + "("@ + args + status, c.name));
        assert(text::contains("- "@ + c.name + "("@ + args + status, status));
        action_lines_hold_each(msgs, listed, i);
        assert(text::contains(s, b));
        text::a_part_of_a_part(b, line, c.name);
        text::a_part_of_a_part(b, line, status);
        text::a_part_of_a_part(s, b, c.name);
        text::a_part_of_a_part(s, b, status);
    }
    assert forall|p: int| 0 <= p < pending_calls(msgs).len() implies text::contains(
        s,
        #[trigger] pending_calls(msgs)[p],
    ) by {
        let one = pending_calls(msgs)[p];
        nested_lines_hold_each(pending_calls(msgs), p);
        assert(text::contains(c, one));
        assert(text::contains(s, one));
    }
}

/// Every skill that was cleared is listed in its section, with how it is loaded again; a section
/// of nothing is left out.
pub proof fn cleared_skills_are_listed(
    names: Seq<Seq<char>>,
    i: int,
    heading: Seq<char>,
    blank: Seq<char>,
)
    ensures
        0 <= i < names.len() ==> text::contains(skill_section(names), names[i]),
        0 <= i < names.len() ==> text::contains(
            skill_section(names),
            "skill_view(name='"@ + names[i] + "')"@,
        ),
        names.len() == 0 ==> skill_section(names).len() == 0,
        optional_section(heading, None).len() == 0,
        text::trim(blank).len() == 0 ==> optional_section(heading, Some(blank)).len() == 0,
        text::trim(blank).len() > 0 ==> text::starts_with(
            optional_section(heading, Some(blank)),
            heading + blank,
        ),
{
    broadcast use text::group_parts;

    if 0 <= i < names.len() {
        let lines = tool_pruning::marker_lines(names);
        let name = names[i];
        let call = "skill_view(name='"@ + name + "')"@;
        a_listed_skill_can_be_loaded(names, i);
        assert(text::contains(skill_section(names), lines));
        text::a_part_of_a_part(skill_section(names), lines, call);
        assert(text::contains(call, name));
        text::a_part_of_a_part(skill_section(names), call, name);
    }
    let shown = optional_section(heading, Some(blank));
    let head = heading + blank;
    if text::trim(blank).len() > 0 {
        assert(shown.subrange(0, head.len() as int) =~= head);
    }
}

/// Among the lines of the skills each one stands with how it is loaded again.
proof fn a_listed_skill_can_be_loaded(names: Seq<Seq<char>>, i: int)
    requires
        0 <= i < names.len(),
    ensures
        text::contains(
            tool_pruning::marker_lines(names),
            "skill_view(name='"@ + names[i] + "')"@,
        ),
    decreases names.len(),
{
    broadcast use text::group_parts;

    let lines = tool_pruning::marker_lines(names);
    let call = "skill_view(name='"@ + names[i] + "')"@;
    if i < names.len() - 1 {
        let before = tool_pruning::marker_lines(names.drop_last());
        a_listed_skill_can_be_loaded(names.drop_last(), i);
        assert(text::contains(lines, before));
        text::a_part_of_a_part(lines, before, call);
    } else {
        let mark = tool_pruning::skill_marker(names[i]);
        let words = " content lost in compression; reload with "@;
        reveal_strlit(" content lost in compression; reload with skill_view(name='");
        reveal_strlit(" content lost in compression; reload with ");
        reveal_strlit("skill_view(name='");
        reveal_strlit("')]");
        reveal_strlit("')");
        let end = seq![']'];
        assert(" content lost in compression; reload with skill_view(name='"@ =~= words
            + "skill_view(name='"@);
        assert("')]"@ =~= "')"@ + end);
        let head = tool_pruning::SKILL_PRUNED_MARKER_PREFIX@ + words;
        assert(mark =~= head + call + end);
        assert(text::contains(head + call + end, call));
        assert(text::contains(lines, mark));
        text::a_part_of_a_part(lines, mark, call);
    }
}

} // verus!

//! What a sub-agent has come to: its answer, what it did, and what went wrong.
use vstd::prelude::*;

use crate::agent;
use crate::agent::{
    is_checkpoint_text, is_delegation_text, is_model_text, is_resource_text, is_timeout_text,
};
use crate::ids;
use crate::ids::hash_hex;
use crate::json;
use crate::json::codec;
use crate::json::codec::parse;
use crate::json::{add_field, Json, JsonModel};
use crate::llm::{clone_opt, ChatMessage, MessageModel, Role, ToolCall, ToolCallModel};
use crate::seqs;
use crate::text;
use crate::text::{
    chars_of, chars_start_with, cut, decimal_text, find_char, find_chars, find_outer_span,
    find_span, same_text, string_of, take_last_text, take_text, text_contains, text_starts_with,
    trim_chars, trim_start_chars, trim_text,
};

verus! {

broadcast use {
    crate::seqs::group_views,
    crate::json::items_model_push,
    crate::json::fields_model_push,
};

// ---------- errors ----------

/// What went wrong with a sub-agent.
#[derive(Debug, Clone, Copy, PartialEq, Eq, Structural)]
pub enum ErrorClassification {
    NoError,
    ToolError,
    ModelError,
    Timeout,
    DelegationError,
    CheckpointError,
    ResourceExhausted,
    Cancelled,
    Unknown,
}

impl Default for ErrorClassification {
    fn default() -> (r: Self)
        ensures
            r == ErrorClassification::NoError,
    {
        ErrorClassification::NoError
    }
}

/// The class of an error by its text in lower case: the first that the text speaks of.
pub open spec fn error_class(lower: Seq<char>, empty: bool) -> ErrorClassification {
    if agent::speaks_of_timeout(lower) {
        ErrorClassification::Timeout
    } else if text::contains(lower, "tool"@) {
        ErrorClassification::ToolError
    } else if agent::speaks_of_model(lower) {
        ErrorClassification::ModelError
    } else if agent::speaks_of_delegation(lower) {
        ErrorClassification::DelegationError
    } else if agent::speaks_of_checkpoint(lower) {
        ErrorClassification::CheckpointError
    } else if agent::speaks_of_resource(lower) {
        ErrorClassification::ResourceExhausted
    } else if text::contains(lower, "cancel"@) {
        ErrorClassification::Cancelled
    } else if empty {
        ErrorClassification::NoError
    } else {
        ErrorClassification::Unknown
    }
}

/// The name of a class.
pub open spec fn class_name(class: ErrorClassification) -> Seq<char> {
    match class {
        ErrorClassification::NoError => "none"@,
        ErrorClassification::ToolError => "tool_error"@,
        ErrorClassification::ModelError => "model_error"@,
        ErrorClassification::Timeout => "timeout"@,
        ErrorClassification::DelegationError => "delegation_error"@,
        ErrorClassification::CheckpointError => "checkpoint_error"@,
        ErrorClassification::ResourceExhausted => "resource_exhausted"@,
        ErrorClassification::Cancelled => "cancelled"@,
        ErrorClassification::Unknown => "unknown"@,
    }
}

impl ErrorClassification {
    /// The class of an error by its text in lower case, and whether it has any text.
    pub fn from_lowercase(lower: &str, empty: bool) -> (r: Self)
        ensures
            r == error_class(lower@, empty),
    {
        if is_timeout_text(lower) {
            ErrorClassification::Timeout
        } else if text_contains(lower, "tool") {
            ErrorClassification::ToolError
        } else if is_model_text(lower) {
            ErrorClassification::ModelError
        } else if is_delegation_text(lower) {
            ErrorClassification::DelegationError
        } else if is_checkpoint_text(lower) {
            ErrorClassification::CheckpointError
        } else if is_resource_text(lower) {
            ErrorClassification::ResourceExhausted
        } else if text_contains(lower, "cancel") {
            ErrorClassification::Cancelled
        } else if empty {
            ErrorClassification::NoError
        } else {
            ErrorClassification::Unknown
        }
    }

    /// The class of an error by its text, in which case does not matter.
    pub fn from_error(err: &str) -> (r: Self)
        ensures
            r == error_class(text::lowercased(err@), err@.len() == 0),
            text::is_ascii_text(err@) ==> r == error_class(
                text::ascii_lowercased(err@),
                err@.len() == 0,
            ),
    {
        let lower = err.to_lowercase();
        ErrorClassification::from_lowercase(lower.as_str(), err.is_empty())
    }

    /// The name of the class.
    pub fn name(&self) -> (r: &'static str)
        ensures
            r@ == class_name(*self),
    {
        match self {
            ErrorClassification::NoError => "none",
            ErrorClassification::ToolError => "tool_error",
            ErrorClassification::ModelError => "model_error",
            ErrorClassification::Timeout => "timeout",
            ErrorClassification::DelegationError => "delegation_error",
            ErrorClassification::CheckpointError => "checkpoint_error",
            ErrorClassification::ResourceExhausted => "resource_exhausted",
            ErrorClassification::Cancelled => "cancelled",
            ErrorClassification::Unknown => "unknown",
        }
    }
}

// ---------- what was used ----------

/// How much a sub-agent has used.
#[derive(Debug, Clone, Copy, PartialEq, Eq, Structural)]
pub struct UsageMetadata {
    pub iterations: usize,
    pub tool_calls: usize,
    pub subagents_spawned: usize,
    pub compressions: usize,
}

impl Default for UsageMetadata {
    fn default() -> (r: Self)
        ensures
            r == (UsageMetadata {
                iterations: 0,
                tool_calls: 0,
                subagents_spawned: 0,
                compressions: 0,
            }),
    {
        UsageMetadata { iterations: 0, tool_calls: 0, subagents_spawned: 0, compressions: 0 }
    }
}

/// How often a tool was called.
#[derive(Debug, PartialEq, Eq)]
pub struct ToolExecutionEntry {
    pub name: String,
    pub count: usize,
}

impl DeepView for ToolExecutionEntry {
    type V = (Seq<char>, int);

    open spec fn deep_view(&self) -> (Seq<char>, int) {
        (self.name@, self.count as int)
    }
}

/// How often each tool was called.
#[derive(Debug, PartialEq, Eq)]
pub struct ToolExecutionSummary {
    pub entries: Vec<ToolExecutionEntry>,
}

impl View for ToolExecutionSummary {
    type V = Seq<(Seq<char>, int)>;

    open spec fn view(&self) -> Seq<(Seq<char>, int)> {
        self.entries.deep_view()
    }
}

impl DeepView for ToolExecutionSummary {
    type V = Seq<(Seq<char>, int)>;

    open spec fn deep_view(&self) -> Seq<(Seq<char>, int)> {
        self@
    }
}

/// Each name once, in the order of first appearance, with how often it occurs.
pub open spec fn tally(names: Seq<Seq<char>>) -> Seq<(Seq<char>, int)> {
    seqs::distinct(names).map_values(
        |n: Seq<char>| (n, seqs::occurrences(names, n) as int),
    )
}

/// The sum of counts.
pub open spec fn sum_counts(entries: Seq<(Seq<char>, int)>) -> int
    decreases entries.len(),
{
    if entries.len() == 0 {
        0
    } else {
        sum_counts(entries.drop_last()) + entries.last().1
    }
}

/// One more at one place is one more in all.
proof fn sum_counts_update(entries: Seq<(Seq<char>, int)>, i: int, e: (Seq<char>, int))
    requires
        0 <= i < entries.len(),
    ensures
        sum_counts(entries.update(i, e)) == sum_counts(entries) - entries[i].1 + e.1,
    decreases entries.len(),
{
    let u = entries.update(i, e);
    if i == entries.len() - 1 {
        assert(u.drop_last() =~= entries.drop_last());
    } else {
        sum_counts_update(entries.drop_last(), i, e);
        assert(u.drop_last() =~= entries.drop_last().update(i, e));
    }
}

/// What one more name does to the counts.
proof fn tally_push(names: Seq<Seq<char>>, x: Seq<char>)
    ensures
        ({
            let before = tally(names);
            let after = tally(names.push(x));
            if seqs::distinct(names).contains(x) {
                forall|i: int|
                    0 <= i < before.len() && before[i].0 == x ==> after == #[trigger] before.update(
                        i,
                        (x, before[i].1 + 1),
                    )
            } else {
                after == before.push((x, 1))
            }
        }),
        sum_counts(tally(names.push(x))) == sum_counts(tally(names)) + 1,
{
    let more = names.push(x);
    let d = seqs::distinct(names);
    let before = tally(names);
    let after = tally(more);
    assert(more.drop_last() =~= names);
    seqs::distinct_keeps(names);
    seqs::occurrences_bounds(names, x);
    assert(d.contains(x) == names.contains(x));
    if d.contains(x) {
        assert forall|i: int| 0 <= i < before.len() && before[i].0 == x implies after
            == #[trigger] before.update(i, (x, before[i].1 + 1)) by {
            assert forall|j: int| 0 <= j < before.len() implies after[j] == before.update(
                i,
                (x, before[i].1 + 1),
            )[j] by {
                if j != i {
                    assert(d[j] != d[i]);
                }
            }
            assert(after =~= before.update(i, (x, before[i].1 + 1)));
        }
        let i = choose|i: int| 0 <= i < d.len() && d[i] == x;
        assert(before[i].0 == x);
        sum_counts_update(before, i, (x, before[i].1 + 1));
        assert(after == before.update(i, (x, before[i].1 + 1)));
    } else {
        assert forall|j: int| 0 <= j < before.len() implies after[j] == before[j] by {
            assert(d.contains(d[j]));
        }
        assert(after =~= before.push((x, 1)));
        assert(after.drop_last() =~= before);
    }
}

/// The counts of all tools add up to the number of calls.
pub proof fn counts_add_up(names: Seq<Seq<char>>)
    ensures
        sum_counts(tally(names)) == names.len(),
    decreases names.len(),
{
    if names.len() > 0 {
        counts_add_up(names.drop_last());
        tally_push(names.drop_last(), names.last());
        assert(names.drop_last().push(names.last()) =~= names);
    }
}

impl ToolExecutionSummary {
    /// How often each of the named tools was called, in the order of first appearance.
    pub fn from_tool_names(names: &[String]) -> (r: Self)
        ensures
            r@ == tally(names.deep_view()),
            sum_counts(r@) == names@.len(),
    {
        let ghost all = names.deep_view();
        let mut entries: Vec<ToolExecutionEntry> = Vec::new();
        let mut i: usize = 0;
        assert(entries.deep_view() =~= tally(all.take(0)));
        while i < names.len()
            invariant
                i <= names@.len(),
                all == names.deep_view(),
                all.len() == names@.len(),
                entries.deep_view() == tally(all.take(i as int)),
            decreases names@.len() - i,
        {
            let ghost sofar = all.take(i as int);
            let ghost x = all[i as int];
            let ghost before = entries.deep_view();
            proof {
                assert(all.take(i + 1) =~= sofar.push(x));
                tally_push(sofar, x);
            }
            let mut k: usize = 0;
            while k < entries.len() && !same_text(entries[k].name.as_str(), names[i].as_str())
                invariant
                    i < names@.len(),
                    x == names@[i as int]@,
                    k <= entries@.len(),
                    forall|j: int| 0 <= j < k ==> (#[trigger] entries@[j]).name@ != x,
                decreases entries@.len() - k,
            {
                k += 1;
            }
            if k < entries.len() {
                let n: usize = entries[k].count;
                proof {
                    assert(before[k as int].0 == x);
                    assert(seqs::distinct(sofar)[k as int] == x);
                    seqs::occurrences_bounds(sofar, x);
                }
                entries.set(k, ToolExecutionEntry { name: names[i].clone(), count: n + 1 });
                assert(entries.deep_view() =~= before.update(k as int, (x, before[k as int].1 + 1)));
            } else {
                proof {
                    assert(!seqs::distinct(sofar).contains(x)) by {
                        if seqs::distinct(sofar).contains(x) {
                            let j = choose|j: int|
                                0 <= j < seqs::distinct(sofar).len() && seqs::distinct(sofar)[j]
                                    == x;
                            assert(before[j].0 == x);
                            assert(entries@[j].name@ == x);
                        }
                    }
                }
                entries.push(ToolExecutionEntry { name: names[i].clone(), count: 1 });
            }
            i += 1;
        }
        assert(all.take(i as int) =~= all);
        proof {
            counts_add_up(all);
        }
        ToolExecutionSummary { entries }
    }

    /// How many calls there were in all.
    pub fn total_calls(&self) -> (r: usize)
        requires
            sum_counts(self@) <= usize::MAX,
        ensures
            r == sum_counts(self@),
    {
        let ghost all = self@;
        let mut sum: usize = 0;
        let mut i: usize = 0;
        while i < self.entries.len()
            invariant
                i <= self.entries@.len(),
                all == self@,
                all.len() == self.entries@.len(),
                sum == sum_counts(all.take(i as int)),
                sum_counts(all) <= usize::MAX,
            decreases self.entries@.len() - i,
        {
            proof {
                assert(all.take(i + 1).drop_last() =~= all.take(i as int));
                assert(all.take(i + 1).last() == all[i as int]);
                sum_counts_prefix(all, i + 1);
            }
            sum = sum + self.entries[i].count;
            i += 1;
        }
        assert(all.take(i as int) =~= all);
        sum
    }
}

/// The first entries count no more than all of them.
proof fn sum_counts_prefix(entries: Seq<(Seq<char>, int)>, n: int)
    requires
        0 <= n <= entries.len(),
        forall|i: int| 0 <= i < entries.len() ==> (#[trigger] entries[i]).1 >= 0,
    ensures
        sum_counts(entries.take(n)) <= sum_counts(entries),
    decreases entries.len() - n,
{
    if n == entries.len() {
        assert(entries.take(n) =~= entries);
    } else {
        sum_counts_prefix(entries, n + 1);
        assert(entries.take(n + 1).drop_last() =~= entries.take(n));
        assert(entries.take(n + 1).last() == entries[n]);
    }
}

impl Default for ToolExecutionSummary {
    fn default() -> (r: Self)
        ensures
            r@ == Seq::<(Seq<char>, int)>::empty(),
    {
        ToolExecutionSummary { entries: Vec::new() }
    }
}

// ---------- what the tools returned ----------

/// How many characters of a result a trace shows.
pub const TRACE_PREVIEW_CHARS: usize = 2000;

/// A call of a tool and what it returned.
#[derive(Debug, PartialEq, Eq)]
pub struct ToolTraceEntry {
    pub tool: String,
    pub arguments: Option<Json>,
    pub preview: String,
    pub is_error: bool,
}

/// What an entry of a trace is.
#[verifier::ext_equal]
pub struct TraceModel {
    pub tool: Seq<char>,
    pub arguments: Option<JsonModel>,
    pub preview: Seq<char>,
    pub is_error: bool,
}

impl View for ToolTraceEntry {
    type V = TraceModel;

    open spec fn view(&self) -> TraceModel {
        TraceModel {
            tool: self.tool@,
            arguments: self.arguments.deep_view(),
            preview: self.preview@,
            is_error: self.is_error,
        }
    }
}

impl DeepView for ToolTraceEntry {
    type V = TraceModel;

    open spec fn deep_view(&self) -> TraceModel {
        self@
    }
}

/// A copy of an optional value.
pub fn clone_json(j: &Option<Json>) -> (r: Option<Json>)
    ensures
        r.deep_view() == j.deep_view(),
{
    match j {
        Some(v) => Some(v.clone()),
        None => None,
    }
}

impl Clone for ToolTraceEntry {
    fn clone(&self) -> (r: Self)
        ensures
            r@ == self@,
    {
        ToolTraceEntry {
            tool: self.tool.clone(),
            arguments: clone_json(&self.arguments),
            preview: self.preview.clone(),
            is_error: self.is_error,
        }
    }
}

/// The last calls of tools and what they returned.
#[derive(Debug, PartialEq, Eq)]
pub struct ToolTrace {
    pub entries: Vec<ToolTraceEntry>,
}

impl View for ToolTrace {
    type V = Seq<TraceModel>;

    open spec fn view(&self) -> Seq<TraceModel> {
        self.entries.deep_view()
    }
}

impl DeepView for ToolTrace {
    type V = Seq<TraceModel>;

    open spec fn deep_view(&self) -> Seq<TraceModel> {
        self@
    }
}

impl Default for ToolTrace {
    fn default() -> (r: Self)
        ensures
            r@ == Seq::<TraceModel>::empty(),
    {
        ToolTrace { entries: Vec::new() }
    }
}

impl Clone for ToolTrace {
    fn clone(&self) -> (r: Self)
        ensures
            r@ == self@,
    {
        let mut entries: Vec<ToolTraceEntry> = Vec::new();
        let mut i: usize = 0;
        while i < self.entries.len()
            invariant
                i <= self.entries@.len(),
                entries@.len() == i,
                forall|j: int| 0 <= j < i ==> (#[trigger] entries@[j])@ == self.entries@[j]@,
            decreases self.entries@.len() - i,
        {
            entries.push(self.entries[i].clone());
            i += 1;
        }
        assert(entries.deep_view() =~= self.entries.deep_view());
        ToolTrace { entries }
    }
}

/// The last of these calls with the identifier.
pub open spec fn call_in(calls: Seq<ToolCallModel>, id: Seq<char>) -> Option<ToolCallModel>
    decreases calls.len(),
{
    if calls.len() == 0 {
        None
    } else if calls.last().id == id {
        Some(calls.last())
    } else {
        call_in(calls.drop_last(), id)
    }
}

/// The last call with the identifier that the model has asked for.
pub open spec fn call_of(msgs: Seq<MessageModel>, id: Seq<char>) -> Option<ToolCallModel>
    decreases msgs.len(),
{
    if msgs.len() == 0 {
        None
    } else if msgs.last().role == Role::Assistant && call_in(msgs.last().calls(), id) is Some {
        call_in(msgs.last().calls(), id)
    } else {
        call_of(msgs.drop_last(), id)
    }
}

/// The arguments of a call; none where they are null.
pub open spec fn given_arguments(call: ToolCallModel) -> Option<JsonModel> {
    if call.arguments is Null {
        None
    } else {
        Some(call.arguments)
    }
}

/// The entry of a result.
pub open spec fn trace_entry(msgs: Seq<MessageModel>, m: MessageModel) -> TraceModel {
    let call = match m.tool_call_id {
        Some(id) => call_of(msgs, id),
        None => None,
    };
    TraceModel {
        tool: match call {
            Some(c) => c.name,
            None => "tool"@,
        },
        arguments: match call {
            Some(c) => given_arguments(c),
            None => None,
        },
        preview: text::first_chars(m.text(), TRACE_PREVIEW_CHARS as int),
        is_error: is_error_output(m.text()),
    }
}

/// The entries of the last `max` results among the first messages, in order.
pub open spec fn trace_of(
    msgs: Seq<MessageModel>,
    first: Seq<MessageModel>,
    max: int,
) -> Seq<TraceModel>
    decreases first.len(),
{
    if first.len() == 0 || max <= 0 {
        Seq::empty()
    } else if first.last().role == Role::Tool {
        trace_of(msgs, first.drop_last(), max - 1).push(trace_entry(msgs, first.last()))
    } else {
        trace_of(msgs, first.drop_last(), max)
    }
}

/// The last of these calls with the identifier.
fn find_call_in(calls: &[ToolCall], id: &str) -> (r: Option<usize>)
    ensures
        match r {
            Some(i) => i < calls@.len() && call_in(calls.deep_view(), id@) == Some(
                calls@[i as int]@,
            ),
            None => call_in(calls.deep_view(), id@) is None,
        },
{
    let ghost all = calls.deep_view();
    let mut n: usize = calls.len();
    assert(all.take(n as int) =~= all);
    while n > 0
        invariant
            n <= calls@.len(),
            all == calls.deep_view(),
            all.len() == calls@.len(),
            call_in(all, id@) == call_in(all.take(n as int), id@),
        decreases n,
    {
        assert(all.take(n as int).last() == calls@[n - 1]@);
        assert(all.take(n as int).drop_last() =~= all.take(n - 1));
        if same_text(calls[n - 1].id.as_str(), id) {
            return Some(n - 1);
        }
        n -= 1;
    }
    None
}

/// The last call with the identifier that the model has asked for.
fn find_call(messages: &[ChatMessage], id: &str) -> (r: Option<ToolCall>)
    ensures
        r.deep_view() == call_of(messages.deep_view(), id@),
{
    let ghost msgs = messages.deep_view();
    let mut n: usize = messages.len();
    assert(msgs.take(n as int) =~= msgs);
    while n > 0
        invariant
            n <= messages@.len(),
            msgs == messages.deep_view(),
            msgs.len() == messages@.len(),
            call_of(msgs, id@) == call_of(msgs.take(n as int), id@),
        decreases n,
    {
        assert(msgs.take(n as int).last() == messages@[n - 1]@);
        assert(msgs.take(n as int).drop_last() =~= msgs.take(n - 1));
        if messages[n - 1].role == Role::Assistant {
            if let Some(calls) = &messages[n - 1].tool_calls {
                if let Some(i) = find_call_in(calls.as_slice(), id) {
                    return Some(calls[i].clone());
                }
            }
        }
        n -= 1;
    }
    None
}

/// The entry of a result.
fn entry_of(messages: &[ChatMessage], msg: &ChatMessage) -> (r: ToolTraceEntry)
    ensures
        r@ == trace_entry(messages.deep_view(), msg@),
{
    let content = match &msg.content {
        Some(c) => c.clone(),
        None => String::new(),
    };
    let call = match &msg.tool_call_id {
        Some(id) => find_call(messages, id.as_str()),
        None => None,
    };
    let preview = take_text(content.as_str(), TRACE_PREVIEW_CHARS);
    let is_error = looks_like_error_output(content.as_str());
    match call {
        Some(c) => {
            let arguments = if c.arguments.is_null() {
                None
            } else {
                Some(c.arguments)
            };
            ToolTraceEntry { tool: c.name, arguments, preview, is_error }
        },
        None => ToolTraceEntry {
            tool: String::from_str("tool"),
            arguments: None,
            preview,
            is_error,
        },
    }
}

impl ToolTrace {
    /// The last results of a conversation, at most so many, in order.
    pub fn from_messages(messages: &[ChatMessage], max_entries: usize) -> (r: Self)
        ensures
            r@ == trace_of(messages.deep_view(), messages.deep_view(), max_entries as int),
    {
        let ghost msgs = messages.deep_view();
        let ghost max = max_entries as int;
        // Find how many results fit, then read them from the first on.
        let mut n: usize = messages.len();
        let mut left: usize = max_entries;
        while n > 0 && left > 0
            invariant
                n <= messages@.len(),
                left <= max_entries,
                msgs == messages.deep_view(),
                msgs.len() == messages@.len(),
                max == max_entries,
                forall|t: Seq<TraceModel>|
                    #![trigger t + results_from(msgs, n as int)]
                    trace_of(msgs, msgs.take(n as int), left as int) == t ==> trace_of(
                        msgs,
                        msgs.take(msgs.len() as int),
                        max,
                    ) == t + results_from(msgs, n as int),
            decreases n,
        {
            n -= 1;
            let ghost tail = results_from(msgs, n + 1);
            assert(msgs.take(n + 1).last() == msgs[n as int]);
            assert(msgs[n as int] == messages@[n as int]@);
            assert(msgs.take(n + 1).drop_last() =~= msgs.take(n as int));
            if messages[n].role == Role::Tool {
                left -= 1;
                proof {
                    let before = trace_of(msgs, msgs.take(n as int), left as int);
                    let e = trace_entry(msgs, msgs[n as int]);
                    assert(before.push(e) + tail =~= before + (seq![e] + tail));
                }
            } else {
                proof {
                    let before = trace_of(msgs, msgs.take(n as int), left as int);
                    assert(before + tail =~= before + results_from(msgs, n as int));
                }
            }
        }
        proof {
            assert(msgs.take(msgs.len() as int) =~= msgs);
            let none = trace_of(msgs, msgs.take(n as int), left as int);
            assert(none =~= Seq::<TraceModel>::empty());
            assert(none + results_from(msgs, n as int) =~= results_from(msgs, n as int));
        }
        let mut entries: Vec<ToolTraceEntry> = Vec::new();
        let mut i: usize = n;
        let ghost start = n as int;
        assert(entries.deep_view() + results_from(msgs, start) =~= results_from(msgs, start));
        while i < messages.len()
            invariant
                start <= i <= messages@.len(),
                msgs == messages.deep_view(),
                msgs.len() == messages@.len(),
                entries.deep_view() + results_from(msgs, i as int) == results_from(msgs, start),
            decreases messages@.len() - i,
        {
            let ghost before = entries.deep_view();
            let ghost tail = results_from(msgs, i + 1);
            assert(msgs[i as int] == messages@[i as int]@);
            if messages[i].role == Role::Tool {
                let e = entry_of(messages, &messages[i]);
                assert(before.push(e@) + tail =~= before + (seq![e@] + tail));
                entries.push(e);
            }
            i += 1;
        }
        assert(entries.deep_view() + results_from(msgs, i as int) =~= entries.deep_view());
        ToolTrace { entries }
    }
}

/// The entries of the results from `i` on.
spec fn results_from(msgs: Seq<MessageModel>, i: int) -> Seq<TraceModel>
    decreases msgs.len() - i,
{
    if i < 0 || i >= msgs.len() {
        Seq::empty()
    } else if msgs[i].role == Role::Tool {
        seq![trace_entry(msgs, msgs[i])] + results_from(msgs, i + 1)
    } else {
        results_from(msgs, i + 1)
    }
}

/// A trace has no more entries than asked for, and all results where they are no more.
pub proof fn trace_is_bounded(msgs: Seq<MessageModel>, first: Seq<MessageModel>, max: int)
    requires
        max >= 0,
    ensures
        trace_of(msgs, first, max).len() <= max,
    decreases first.len(),
{
    if first.len() > 0 && max > 0 {
        trace_is_bounded(msgs, first.drop_last(), max);
        trace_is_bounded(msgs, first.drop_last(), max - 1);
    }
}

// ---------- results that are errors ----------

/// A status, in lower case, that stands for a failure.
pub open spec fn is_failed_status(lower: Seq<char>) -> bool {
    lower == "error"@ || lower == "failed"@ || lower == "failure"@ || lower == "timeout"@
}

/// Whether a status, in lower case, stands for a failure.
pub fn is_error_status(lower: &str) -> (r: bool)
    ensures
        r == is_failed_status(lower@),
{
    same_text(lower, "error") || same_text(lower, "failed") || same_text(lower, "failure")
        || same_text(lower, "timeout")
}

/// A line, in lower case, that begins like an error.
pub open spec fn begins_like_error(lower: Seq<char>) -> bool {
    ||| text::starts_with(lower, "error:"@)
    ||| text::starts_with(lower, "failed:"@)
    ||| text::starts_with(lower, "traceback "@)
    ||| text::starts_with(lower, "exception:"@)
}

/// Whether a line, in lower case, begins like an error.
pub fn is_error_line(lower: &str) -> (r: bool)
    ensures
        r == begins_like_error(lower@),
{
    text_starts_with(lower, "error:") || text_starts_with(lower, "failed:") || text_starts_with(
        lower,
        "traceback ",
    ) || text_starts_with(lower, "exception:")
}

/// A JSON value that speaks of an error: an object with such a field, or whose status
/// stands for a failure.
pub open spec fn is_error_value(value: JsonModel) -> bool {
    ||| value.get("error"@) is Some
    ||| value.at("status"@).as_str() matches Some(s) && is_failed_status(
        text::lowercased(text::trim(s)),
    )
}

/// Whether a JSON value speaks of an error.
pub fn value_is_error(value: &Json) -> (r: bool)
    ensures
        r == is_error_value(value@),
{
    if value.get("error").is_some() {
        return true;
    }
    match value.str_field("status") {
        Some(s) => {
            let lower = trim_text(s).as_str().to_lowercase();
            is_error_status(lower.as_str())
        },
        None => false,
    }
}

/// The first line of a text.
pub open spec fn first_line(s: Seq<char>) -> Seq<char> {
    match text::first_of(s, '\n') {
        Some(i) => s.take(i),
        None => s,
    }
}

/// A result that is an error: a JSON value that speaks of one, or a text whose first
/// line begins like one.
pub open spec fn is_error_output(content: Seq<char>) -> bool {
    let trimmed = text::trim_start(content);
    &&& content.len() > 0
    &&& {
        ||| (text::starts_with(trimmed, "{"@) || text::starts_with(trimmed, "["@))
            && (codec::parsed(trimmed) matches Ok(value) && is_error_value(value))
        ||| begins_like_error(text::lowercased(text::trim(first_line(content))))
    }
}

/// Whether a result is an error.
pub fn looks_like_error_output(content: &str) -> (r: bool)
    ensures
        r == is_error_output(content@),
{
    if content.is_empty() {
        return false;
    }
    let chars = chars_of(content);
    let trimmed = trim_start_chars(chars.as_slice());
    let brace = chars_of("{");
    let bracket = chars_of("[");
    if chars_start_with(trimmed.as_slice(), brace.as_slice()) || chars_start_with(
        trimmed.as_slice(),
        bracket.as_slice(),
    ) {
        if let Ok(value) = parse(string_of(trimmed.as_slice()).as_str()) {
            if value_is_error(&value) {
                return true;
            }
        }
    }
    let line = match find_char(chars.as_slice(), '\n') {
        Some(i) => cut(chars.as_slice(), 0, i),
        None => chars,
    };
    let first = trim_chars(line.as_slice());
    let lower = string_of(first.as_slice()).as_str().to_lowercase();
    is_error_line(lower.as_str())
}

// ---------- the JSON in an answer ----------

/// The JSON that a text is, where it is any.
pub open spec fn direct_payload(t: Seq<char>) -> Option<JsonModel> {
    match codec::parsed(t) {
        Ok(v) => Some(v),
        Err(_) => None,
    }
}

/// The JSON in the first fenced block of a text that is marked as such.
pub open spec fn fenced_payload(t: Seq<char>) -> Option<JsonModel> {
    match text::find(t, "```json"@) {
        None => None,
        Some(start) => {
            let after = t.skip(start + "```json"@.len());
            match text::find(after, "```"@) {
                None => None,
                Some(end) => direct_payload(text::trim(after.take(end))),
            }
        },
    }
}

/// The JSON that the curly brackets of a text enclose, or the square ones where they stand
/// round the curly ones or there are no curly ones.
pub open spec fn bracketed_payload(t: Seq<char>) -> Option<JsonModel> {
    match (text::span(t, '{', '}'), text::span(t, '[', ']')) {
        (Some(curly), _) => direct_payload(text::cut_span(t, text::outer_span(t, curly))),
        (None, Some(square)) => if text::first_of(t, '{') is Some {
            None
        } else {
            direct_payload(text::cut_span(t, square))
        },
        (None, None) => None,
    }
}

/// The JSON in an answer: the whole of it, or what a fence or brackets enclose.
pub open spec fn payload_of(response: Seq<char>) -> Option<JsonModel> {
    let t = text::trim(response);
    if direct_payload(t) is Some {
        direct_payload(t)
    } else if fenced_payload(t) is Some {
        fenced_payload(t)
    } else {
        bracketed_payload(t)
    }
}

/// The JSON that a text is, where it is any.
fn read_direct(t: &[char]) -> (r: Option<Json>)
    ensures
        r.deep_view() == direct_payload(t@),
{
    match parse(string_of(t).as_str()) {
        Ok(v) => Some(v),
        Err(_) => None,
    }
}

/// The JSON in the first fenced block of a text that is marked as such.
fn read_fenced(t: &[char]) -> (r: Option<Json>)
    ensures
        r.deep_view() == fenced_payload(t@),
{
    let open = chars_of("```json");
    let fence = chars_of("```");
    let n: usize = t.len();
    match find_chars(t, open.as_slice()) {
        None => None,
        Some(start) => {
            let after = cut(t, start + open.len(), n);
            assert(after@ =~= t@.skip(start + "```json"@.len()));
            match find_chars(after.as_slice(), fence.as_slice()) {
                None => None,
                Some(end) => {
                    let inner = cut(after.as_slice(), 0, end);
                    assert(inner@ =~= after@.take(end as int));
                    let inner = trim_chars(inner.as_slice());
                    read_direct(inner.as_slice())
                },
            }
        },
    }
}

/// The JSON between brackets.
fn read_bracketed(t: &[char]) -> (r: Option<Json>)
    ensures
        r.deep_view() == bracketed_payload(t@),
{
    let n: usize = t.len();
    let (start, end): (usize, usize) = match find_span(t, '{', '}') {
        Some(curly) => find_outer_span(t, curly),
        None => match find_span(t, '[', ']') {
            Some(square) => if find_char(t, '{').is_some() {
                return None;
            } else {
                square
            },
            None => {
                return None;
            },
        },
    };
    assert(start < end < n);
    let inner = cut(t, start, end + 1);
    read_direct(inner.as_slice())
}

/// The JSON in an answer.
pub fn extract_json_payload(response: &str) -> (r: Option<Json>)
    ensures
        r.deep_view() == payload_of(response@),
{
    let chars = chars_of(response);
    let t = trim_chars(chars.as_slice());
    if let Some(v) = read_direct(t.as_slice()) {
        return Some(v);
    }
    if let Some(v) = read_fenced(t.as_slice()) {
        return Some(v);
    }
    read_bracketed(t.as_slice())
}

// ---------- what a sub-agent has come to ----------

/// What a sub-agent has come to.
#[derive(Debug, PartialEq, Eq)]
pub struct SubagentResult {
    pub summary: String,
    pub structured_payload: Option<Json>,
    pub success: bool,
    pub error_classification: ErrorClassification,
    pub error_message: Option<String>,
    pub usage: UsageMetadata,
    pub tool_summary: ToolExecutionSummary,
    pub tool_trace: ToolTrace,
    pub duration_ms: u64,
    pub result_hash: String,
}

/// What the result of a sub-agent is.
#[verifier::ext_equal]
pub struct SubagentModel {
    pub summary: Seq<char>,
    pub structured_payload: Option<JsonModel>,
    pub success: bool,
    pub error_classification: ErrorClassification,
    pub error_message: Option<Seq<char>>,
    pub usage: UsageMetadata,
    pub tool_summary: Seq<(Seq<char>, int)>,
    pub tool_trace: Seq<TraceModel>,
    pub duration_ms: u64,
    pub result_hash: Seq<char>,
}

impl View for SubagentResult {
    type V = SubagentModel;

    open spec fn view(&self) -> SubagentModel {
        SubagentModel {
            summary: self.summary@,
            structured_payload: self.structured_payload.deep_view(),
            success: self.success,
            error_classification: self.error_classification,
            error_message: self.error_message.deep_view(),
            usage: self.usage,
            tool_summary: self.tool_summary@,
            tool_trace: self.tool_trace@,
            duration_ms: self.duration_ms,
            result_hash: self.result_hash@,
        }
    }
}

impl DeepView for SubagentResult {
    type V = SubagentModel;

    open spec fn deep_view(&self) -> SubagentModel {
        self@
    }
}

impl Clone for ToolExecutionSummary {
    fn clone(&self) -> (r: Self)
        ensures
            r@ == self@,
    {
        let mut entries: Vec<ToolExecutionEntry> = Vec::new();
        let mut i: usize = 0;
        while i < self.entries.len()
            invariant
                i <= self.entries@.len(),
                entries@.len() == i,
                forall|j: int|
                    0 <= j < i ==> (#[trigger] entries@[j]).deep_view()
                        == self.entries@[j].deep_view(),
            decreases self.entries@.len() - i,
        {
            entries.push(
                ToolExecutionEntry {
                    name: self.entries[i].name.clone(),
                    count: self.entries[i].count,
                },
            );
            i += 1;
        }
        assert(entries.deep_view() =~= self.entries.deep_view());
        ToolExecutionSummary { entries }
    }
}

impl Clone for SubagentResult {
    fn clone(&self) -> (r: Self)
        ensures
            r@ == self@,
    {
        SubagentResult {
            summary: self.summary.clone(),
            structured_payload: clone_json(&self.structured_payload),
            success: self.success,
            error_classification: self.error_classification,
            error_message: clone_opt(&self.error_message),
            usage: self.usage,
            tool_summary: self.tool_summary.clone(),
            tool_trace: self.tool_trace.clone(),
            duration_ms: self.duration_ms,
            result_hash: self.result_hash.clone(),
        }
    }
}

/// The fingerprint of a text as it stands in a result.
pub open spec fn fingerprint_of(t: Seq<char>) -> Seq<char> {
    text::hex_padded(ids::text_hash(t) as nat, 16)
}

/// The usage of so many rounds and calls.
pub open spec fn usage_of(iterations: usize, tool_calls: usize) -> UsageMetadata {
    UsageMetadata { iterations, tool_calls, subagents_spawned: 0, compressions: 0 }
}

/// What a sub-agent has come to that answered.
pub open spec fn succeeded(
    response: Seq<char>,
    iterations: usize,
    tool_calls_made: usize,
    tool_names: Seq<Seq<char>>,
    duration_ms: u64,
    tool_trace: Seq<TraceModel>,
) -> SubagentModel {
    SubagentModel {
        summary: response,
        structured_payload: payload_of(response),
        success: true,
        error_classification: ErrorClassification::NoError,
        error_message: None,
        usage: usage_of(iterations, tool_calls_made),
        tool_summary: tally(tool_names),
        tool_trace,
        duration_ms,
        result_hash: fingerprint_of(response),
    }
}

/// What a sub-agent has come to that failed.
pub open spec fn failed_with(
    err: Seq<char>,
    class: ErrorClassification,
    iterations: usize,
    tool_calls_made: usize,
) -> SubagentModel {
    SubagentModel {
        summary: Seq::empty(),
        structured_payload: None,
        success: false,
        error_classification: class,
        error_message: Some(err),
        usage: usage_of(iterations, tool_calls_made),
        tool_summary: Seq::empty(),
        tool_trace: Seq::empty(),
        duration_ms: 0,
        result_hash: fingerprint_of(err),
    }
}

/// What a sub-agent has come to that failed; the class is that of the text.
pub open spec fn failed(
    err: Seq<char>,
    iterations: usize,
    tool_calls_made: usize,
) -> SubagentModel {
    failed_with(
        err,
        error_class(text::lowercased(err), err.len() == 0),
        iterations,
        tool_calls_made,
    )
}

/// How a cut answer begins.
pub open spec fn cut_note(len: nat) -> Seq<char> {
    "...[truncated, "@ + text::decimal(len) + " chars total]\n"@
}

/// A result whose answer is cut to its last characters where it is longer than that;
/// a budget of zero is none.
pub open spec fn within_budget(r: SubagentModel, max_chars: int) -> SubagentModel {
    if max_chars == 0 || r.summary.len() <= max_chars {
        r
    } else {
        let summary = cut_note(r.summary.len()) + text::last_chars(r.summary, max_chars);
        SubagentModel { summary, result_hash: fingerprint_of(summary), ..r }
    }
}

impl SubagentResult {
    /// The result of an answer.
    pub fn from_success(
        response: String,
        iterations: usize,
        tool_calls_made: usize,
        tool_names: &[String],
    ) -> (r: Self)
        ensures
            r@ == succeeded(
                response@,
                iterations,
                tool_calls_made,
                tool_names.deep_view(),
                0,
                Seq::empty(),
            ),
            sum_counts(r.tool_summary@) == tool_names@.len(),
    {
        SubagentResult::from_success_with_meta(
            response,
            iterations,
            tool_calls_made,
            tool_names,
            0,
            None,
        )
    }

    /// The result of an answer, with how long it took and what the tools returned.
    pub fn from_success_with_meta(
        response: String,
        iterations: usize,
        tool_calls_made: usize,
        tool_names: &[String],
        duration_ms: u64,
        tool_trace: Option<ToolTrace>,
    ) -> (r: Self)
        ensures
            r@ == succeeded(
                response@,
                iterations,
                tool_calls_made,
                tool_names.deep_view(),
                duration_ms,
                match tool_trace {
                    Some(t) => t@,
                    None => Seq::empty(),
                },
            ),
            sum_counts(r.tool_summary@) == tool_names@.len(),
    {
        let result_hash = hash_hex(response.as_str());
        let structured_payload = extract_json_payload(response.as_str());
        let trace = match tool_trace {
            Some(t) => t,
            None => ToolTrace::default(),
        };
        SubagentResult {
            summary: response,
            structured_payload,
            success: true,
            error_classification: ErrorClassification::NoError,
            error_message: None,
            usage: UsageMetadata {
                iterations,
                tool_calls: tool_calls_made,
                subagents_spawned: 0,
                compressions: 0,
            },
            tool_summary: ToolExecutionSummary::from_tool_names(tool_names),
            tool_trace: trace,
            duration_ms,
            result_hash,
        }
    }

    /// The result of an error.
    pub fn from_error(err: &str, iterations: usize, tool_calls_made: usize) -> (r: Self)
        ensures
            r@ == failed(err@, iterations, tool_calls_made),
    {
        SubagentResult {
            summary: String::new(),
            structured_payload: None,
            success: false,
            error_classification: ErrorClassification::from_error(err),
            error_message: Some(String::from_str(err)),
            usage: UsageMetadata {
                iterations,
                tool_calls: tool_calls_made,
                subagents_spawned: 0,
                compressions: 0,
            },
            tool_summary: ToolExecutionSummary::default(),
            tool_trace: ToolTrace::default(),
            duration_ms: 0,
            result_hash: hash_hex(err),
        }
    }

    /// The result with its answer cut to its last characters where it is longer than
    /// that.
    pub fn with_summary_budget(self, max_chars: usize) -> (r: Self)
        ensures
            r@ == within_budget(self@, max_chars as int),
    {
        let n: usize = self.summary.as_str().unicode_len();
        if max_chars == 0 || n <= max_chars {
            return self;
        }
        let mut s = String::from_str("...[truncated, ");
        s.append(decimal_text(n as u64).as_str());
        s.append(" chars total]\n");
        s.append(take_last_text(self.summary.as_str(), max_chars).as_str());
        let mut out = self;
        out.result_hash = hash_hex(s.as_str());
        out.summary = s;
        out
    }
}

/// An answer within its budget is no longer than the budget and the note, and ends as
/// the whole answer does.
pub proof fn budget_keeps_the_end(r: SubagentModel, max_chars: int)
    requires
        0 < max_chars,
    ensures
        ({
            let cut = within_budget(r, max_chars);
            &&& r.summary.len() <= max_chars ==> cut == r
            &&& r.summary.len() > max_chars ==> cut.summary.len() == cut_note(
                r.summary.len(),
            ).len() + max_chars
            &&& text::last_chars(cut.summary, max_chars) == text::last_chars(r.summary, max_chars)
            &&& cut.success == r.success
            &&& cut.error_message == r.error_message
            &&& cut.usage == r.usage
        }),
{
    let cut = within_budget(r, max_chars);
    if r.summary.len() > max_chars {
        let end = text::last_chars(r.summary, max_chars);
        reveal_strlit("...[truncated, ");
        assert(cut.summary.skip(cut.summary.len() - max_chars) =~= end);
    }
}

// ---------- results as JSON ----------

/// A count as JSON.
pub open spec fn count_json(n: int) -> JsonModel {
    JsonModel::Int(n)
}

/// A usage as JSON.
pub open spec fn usage_json(u: UsageMetadata) -> JsonModel {
    JsonModel::Object(
        seq![
            ("iterations"@, count_json(u.iterations as int)),
            ("tool_calls"@, count_json(u.tool_calls as int)),
            ("subagents_spawned"@, count_json(u.subagents_spawned as int)),
            ("compressions"@, count_json(u.compressions as int)),
        ],
    )
}

/// The counts of tools as JSON.
pub open spec fn tool_summary_json(entries: Seq<(Seq<char>, int)>) -> JsonModel {
    JsonModel::Object(
        seq![
            (
                "entries"@,
                JsonModel::Array(
                    entries.map_values(
                        |e: (Seq<char>, int)|
                            JsonModel::Object(
                                seq![
                                    ("name"@, JsonModel::Str(e.0)),
                                    ("count"@, count_json(e.1)),
                                ],
                            ),
                    ),
                ),
            ),
        ],
    )
}

/// An entry of a trace as JSON; the arguments are left out where there are none.
pub open spec fn trace_entry_json(e: TraceModel) -> JsonModel {
    let tail = seq![
        ("preview"@, JsonModel::Str(e.preview)),
        ("is_error"@, JsonModel::Bool(e.is_error)),
    ];
    JsonModel::Object(
        match e.arguments {
            Some(args) => seq![("tool"@, JsonModel::Str(e.tool)), ("arguments"@, args)] + tail,
            None => seq![("tool"@, JsonModel::Str(e.tool))] + tail,
        },
    )
}

/// A trace as JSON.
pub open spec fn trace_json(entries: Seq<TraceModel>) -> JsonModel {
    JsonModel::Object(
        seq![
            (
                "entries"@,
                JsonModel::Array(entries.map_values(|e: TraceModel| trace_entry_json(e))),
            ),
        ],
    )
}

/// A value, or null where there is none.
pub open spec fn or_null(j: Option<JsonModel>) -> JsonModel {
    match j {
        Some(v) => v,
        None => JsonModel::Null,
    }
}

/// The fields of a result as JSON.
pub open spec fn result_fields(r: SubagentModel) -> Seq<(Seq<char>, JsonModel)> {
    seq![
        ("summary"@, JsonModel::Str(r.summary)),
        ("structured_payload"@, or_null(r.structured_payload)),
        ("success"@, JsonModel::Bool(r.success)),
        ("error_classification"@, JsonModel::Str(class_name(r.error_classification))),
        ("error_message"@, json::opt_str_model(r.error_message)),
        ("usage"@, usage_json(r.usage)),
        ("tool_summary"@, tool_summary_json(r.tool_summary)),
        ("tool_trace"@, trace_json(r.tool_trace)),
        ("duration_ms"@, count_json(r.duration_ms as int)),
        ("result_hash"@, JsonModel::Str(r.result_hash)),
    ]
}

impl UsageMetadata {
    /// The usage as JSON.
    pub fn to_json(&self) -> (r: Json)
        ensures
            r@ == usage_json(*self),
    {
        let mut o: Vec<(String, Json)> = Vec::new();
        add_field(&mut o, "iterations", Json::count(self.iterations as u64));
        add_field(&mut o, "tool_calls", Json::count(self.tool_calls as u64));
        add_field(&mut o, "subagents_spawned", Json::count(self.subagents_spawned as u64));
        add_field(&mut o, "compressions", Json::count(self.compressions as u64));
        let r = Json::object(o);
        assert(r@->Object_0 =~= usage_json(*self)->Object_0);
        r
    }
}

impl ToolExecutionSummary {
    /// The counts as JSON.
    pub fn to_json(&self) -> (r: Json)
        ensures
            r@ == tool_summary_json(self@),
    {
        let ghost all = self@;
        let ghost one = |e: (Seq<char>, int)|
            JsonModel::Object(
                seq![("name"@, JsonModel::Str(e.0)), ("count"@, count_json(e.1))],
            );
        let mut items: Vec<Json> = Vec::new();
        let mut i: usize = 0;
        while i < self.entries.len()
            invariant
                i <= self.entries@.len(),
                all == self@,
                all.len() == self.entries@.len(),
                one == (|e: (Seq<char>, int)|
                    JsonModel::Object(
                        seq![("name"@, JsonModel::Str(e.0)), ("count"@, count_json(e.1))],
                    )),
                items@.len() == i,
                forall|j: int| 0 <= j < i ==> (#[trigger] items@[j])@ == one(all[j]),
            decreases self.entries@.len() - i,
        {
            let mut o: Vec<(String, Json)> = Vec::new();
            add_field(&mut o, "name", Json::Str(self.entries[i].name.clone()));
            add_field(&mut o, "count", Json::count(self.entries[i].count as u64));
            let item = Json::object(o);
            assert(item@->Object_0 =~= one(all[i as int])->Object_0);
            items.push(item);
            i += 1;
        }
        assert(json::items_model(items@) =~= all.map_values(one));
        let mut o: Vec<(String, Json)> = Vec::new();
        add_field(&mut o, "entries", Json::array(items));
        let r = Json::object(o);
        assert(r@->Object_0 =~= tool_summary_json(all)->Object_0);
        r
    }
}

impl ToolTraceEntry {
    /// The entry as JSON.
    pub fn to_json(&self) -> (r: Json)
        ensures
            r@ == trace_entry_json(self@),
    {
        let mut o: Vec<(String, Json)> = Vec::new();
        add_field(&mut o, "tool", Json::Str(self.tool.clone()));
        if let Some(args) = &self.arguments {
            add_field(&mut o, "arguments", args.clone());
        }
        add_field(&mut o, "preview", Json::Str(self.preview.clone()));
        add_field(&mut o, "is_error", Json::Bool(self.is_error));
        let r = Json::object(o);
        assert(r@->Object_0 =~= trace_entry_json(self@)->Object_0);
        r
    }
}

impl ToolTrace {
    /// The trace as JSON.
    pub fn to_json(&self) -> (r: Json)
        ensures
            r@ == trace_json(self@),
    {
        let ghost all = self@;
        let mut items: Vec<Json> = Vec::new();
        let mut i: usize = 0;
        while i < self.entries.len()
            invariant
                i <= self.entries@.len(),
                all == self@,
                all.len() == self.entries@.len(),
                items@.len() == i,
                forall|j: int| 0 <= j < i ==> (#[trigger] items@[j])@ == trace_entry_json(all[j]),
            decreases self.entries@.len() - i,
        {
            items.push(self.entries[i].to_json());
            i += 1;
        }
        assert(json::items_model(items@) =~= all.map_values(|e: TraceModel| trace_entry_json(e)));
        let mut o: Vec<(String, Json)> = Vec::new();
        add_field(&mut o, "entries", Json::array(items));
        let r = Json::object(o);
        assert(r@->Object_0 =~= trace_json(all)->Object_0);
        r
    }
}

impl SubagentResult {
    /// The fields of the result as JSON.
    pub fn to_fields(&self) -> (o: Vec<(String, Json)>)
        ensures
            json::fields_model(o@) == result_fields(self@),
    {
        let mut o: Vec<(String, Json)> = Vec::new();
        add_field(&mut o, "summary", Json::Str(self.summary.clone()));
        let payload = match &self.structured_payload {
            Some(v) => v.clone(),
            None => Json::Null,
        };
        add_field(&mut o, "structured_payload", payload);
        add_field(&mut o, "success", Json::Bool(self.success));
        add_field(
            &mut o,
            "error_classification",
            Json::string(self.error_classification.name()),
        );
        add_field(&mut o, "error_message", Json::opt_str(&self.error_message));
        add_field(&mut o, "usage", self.usage.to_json());
        add_field(&mut o, "tool_summary", self.tool_summary.to_json());
        add_field(&mut o, "tool_trace", self.tool_trace.to_json());
        add_field(&mut o, "duration_ms", Json::count(self.duration_ms));
        add_field(&mut o, "result_hash", Json::Str(self.result_hash.clone()));
        assert(json::fields_model(o@) =~= result_fields(self@));
        o
    }

    /// The result as JSON.
    pub fn to_json(&self) -> (r: Json)
        ensures
            r@ == JsonModel::Object(result_fields(self@)),
    {
        Json::object(self.to_fields())
    }
}

/// What an agent reports while it works.
#[derive(Debug, PartialEq, Eq)]
pub enum ProgressEvent {
    /// A round begins.
    Iteration { iteration: usize },
    /// A call of a tool begins.
    ToolStart { tool: String, arguments: Option<Json> },
    /// A call of a tool has ended.
    ToolEnd { tool: String, result: String, is_error: bool },
}

/// What kind of error a text speaks of is told by its words: of a timeout before all else,
/// then of a tool, of the model, of delegation, of checkpoints, of resources and of
/// cancelling; a text without any of these words is of no known kind, and no text is no
/// error.
pub proof fn classes_are_told_by_their_words(s: Seq<char>, empty: bool)
    ensures
        ({
            let k = error_class(s, empty);
            let timeout = text::contains(s, "timeout"@) || text::contains(s, "timed out"@);
            let tool = text::contains(s, "tool"@);
            let model = text::contains(s, "api"@) || text::contains(s, "llm"@) || text::contains(
                s,
                "model"@,
            );
            let delegation = text::contains(s, "delegat"@) || text::contains(s, "spawn"@);
            let checkpoint = text::contains(s, "checkpoint"@) || text::contains(s, "resume"@);
            let resource = text::contains(s, "resource"@) || text::contains(s, "quota"@)
                || text::contains(s, "token"@);
            let cancel = text::contains(s, "cancel"@);
            &&& k is Timeout == timeout
            &&& !timeout ==> (k is ToolError == tool)
            &&& !timeout && !tool ==> (k is ModelError == model)
            &&& !timeout && !tool && !model ==> (k is DelegationError == delegation)
            &&& !timeout && !tool && !model && !delegation ==> (k is CheckpointError == checkpoint)
            &&& !timeout && !tool && !model && !delegation && !checkpoint ==> (k is ResourceExhausted == resource)
            &&& !timeout && !tool && !model && !delegation && !checkpoint && !resource ==> (k is Cancelled == cancel)
            &&& !timeout && !tool && !model && !delegation && !checkpoint && !resource && !cancel
                ==> k == if empty {
                ErrorClassification::NoError
            } else {
                ErrorClassification::Unknown
            }
        }),
{
}

/// Every tool that was called is counted, as often as it was, and each is listed once.
pub proof fn tools_are_counted(names: Seq<Seq<char>>, x: Seq<char>)
    ensures
        names.contains(x) == exists|i: int|
            0 <= i < tally(names).len() && (#[trigger] tally(names)[i]).0 == x,
        forall|i: int|
            0 <= i < tally(names).len() ==> (#[trigger] tally(names)[i]).1 == seqs::occurrences(
                names,
                tally(names)[i].0,
            ) && tally(names)[i].1 > 0,
        forall|i: int, j: int|
            0 <= i < j < tally(names).len() ==> (#[trigger] tally(names)[i]).0 != (
            #[trigger] tally(names)[j]).0,
{
    let d = seqs::distinct(names);
    seqs::distinct_keeps(names);
    if names.contains(x) {
        assert(d.contains(x));
        let i = choose|i: int| 0 <= i < d.len() && d[i] == x;
        assert(tally(names)[i].0 == x);
    }
    assert forall|i: int| 0 <= i < tally(names).len() implies (#[trigger] tally(names)[i]).1
        == seqs::occurrences(names, tally(names)[i].0) && tally(names)[i].1 > 0 by {
        assert(d.contains(d[i]));
        seqs::occurrences_bounds(names, d[i]);
    }
    if exists|i: int| 0 <= i < tally(names).len() && (#[trigger] tally(names)[i]).0 == x {
        let i = choose|i: int| 0 <= i < tally(names).len() && (#[trigger] tally(names)[i]).0 == x;
        assert(d.contains(d[i]));
    }
}

/// The call with an identifier is found among calls: the last that has it.
proof fn the_last_call_is_found(calls: Seq<ToolCallModel>, j: int)
    requires
        0 <= j < calls.len(),
        forall|i: int| j < i < calls.len() ==> (#[trigger] calls[i]).id != calls[j].id,
    ensures
        call_in(calls, calls[j].id) == Some(calls[j]),
    decreases calls.len(),
{
    if j < calls.len() - 1 {
        assert(calls.drop_last()[j] == calls[j]);
        assert(calls[calls.len() - 1].id != calls[j].id);
        assert forall|i: int| j < i < calls.drop_last().len() implies (
        #[trigger] calls.drop_last()[i]).id != calls.drop_last()[j].id by {
            assert(calls.drop_last()[i] == calls[i]);
        }
        the_last_call_is_found(calls.drop_last(), j);
    }
}

/// A call is not found where none has the identifier.
proof fn no_call_is_found(calls: Seq<ToolCallModel>, id: Seq<char>)
    requires
        forall|i: int| 0 <= i < calls.len() ==> (#[trigger] calls[i]).id != id,
    ensures
        call_in(calls, id) is None,
    decreases calls.len(),
{
    if calls.len() > 0 {
        assert(calls[calls.len() - 1].id != id);
        assert forall|i: int| 0 <= i < calls.drop_last().len() implies (
        #[trigger] calls.drop_last()[i]).id != id by {
            assert(calls.drop_last()[i] == calls[i]);
        }
        no_call_is_found(calls.drop_last(), id);
    }
}

/// The call of a message is found in the conversation, where no later message of the model
/// makes one with the same identifier.
proof fn a_call_is_found(msgs: Seq<MessageModel>, k: int, j: int)
    requires
        0 <= k < msgs.len(),
        msgs[k].role == Role::Assistant,
        0 <= j < msgs[k].calls().len(),
        forall|i: int|
            j < i < msgs[k].calls().len() ==> (#[trigger] msgs[k].calls()[i]).id
                != msgs[k].calls()[j].id,
        forall|l: int, i: int|
            k < l < msgs.len() && 0 <= i < msgs[l].calls().len() ==> (
            #[trigger] msgs[l].calls()[i]).id != msgs[k].calls()[j].id,
    ensures
        call_of(msgs, msgs[k].calls()[j].id) == Some(msgs[k].calls()[j]),
    decreases msgs.len(),
{
    let id = msgs[k].calls()[j].id;
    if k == msgs.len() - 1 {
        the_last_call_is_found(msgs[k].calls(), j);
    } else {
        let last = msgs.len() - 1;
        assert forall|i: int| 0 <= i < msgs[last].calls().len() implies (
        #[trigger] msgs[last].calls()[i]).id != id by {}
        no_call_is_found(msgs.last().calls(), id);
        let front = msgs.drop_last();
        assert(front[k] == msgs[k]);
        assert forall|l: int, i: int|
            k < l < front.len() && 0 <= i < front[l].calls().len() implies (
        #[trigger] front[l].calls()[i]).id != id by {
            assert(front[l] == msgs[l]);
            assert(msgs[l].calls()[i].id != id);
        }
        a_call_is_found(front, k, j);
    }
}

/// What is traced of a result says which tool was called and with what, gives the beginning
/// of what it gave back, and says whether that reads as an error.
pub proof fn a_trace_says_what_was_called(
    msgs: Seq<MessageModel>,
    m: MessageModel,
    k: int,
    j: int,
)
    requires
        0 <= k < msgs.len(),
        msgs[k].role == Role::Assistant,
        0 <= j < msgs[k].calls().len(),
        m.tool_call_id == Some(msgs[k].calls()[j].id),
        forall|i: int|
            j < i < msgs[k].calls().len() ==> (#[trigger] msgs[k].calls()[i]).id
                != msgs[k].calls()[j].id,
        forall|l: int, i: int|
            k < l < msgs.len() && 0 <= i < msgs[l].calls().len() ==> (
            #[trigger] msgs[l].calls()[i]).id != msgs[k].calls()[j].id,
    ensures
        ({
            let e = trace_entry(msgs, m);
            let c = msgs[k].calls()[j];
            &&& e.tool == c.name
            &&& !(c.arguments is Null) ==> e.arguments == Some(c.arguments)
            &&& c.arguments is Null ==> e.arguments is None
            &&& m.text().len() <= 2000 ==> e.preview == m.text()
            &&& m.text().len() > 2000 ==> e.preview == m.text().take(2000)
            &&& e.is_error == is_error_output(m.text())
        }),
{
    a_call_is_found(msgs, k, j);
}

/// The results of a conversation are traced in order, the last ones as many as may be: the
/// last result stands at the end, and the ones before it before it.
pub proof fn the_last_results_are_traced(
    msgs: Seq<MessageModel>,
    first: Seq<MessageModel>,
    m: MessageModel,
    max: int,
)
    ensures
        m.role == Role::Tool && max > 0 ==> {
            let t = trace_of(msgs, first.push(m), max);
            &&& t.len() > 0
            &&& t.last() == trace_entry(msgs, m)
            &&& t.drop_last() == trace_of(msgs, first, max - 1)
        },
        m.role != Role::Tool ==> trace_of(msgs, first.push(m), max) == trace_of(msgs, first, max),
        trace_of(msgs, Seq::empty(), max).len() == 0,
{
    assert(first.push(m).drop_last() =~= first);
    if m.role == Role::Tool && max > 0 {
        let t = trace_of(msgs, first.push(m), max);
        assert(t.drop_last() =~= trace_of(msgs, first, max - 1));
    }
}

/// What a tool gave back reads as an error where it is an object with an error or with the
/// status of a failure, or where its first line begins as an error does.
pub proof fn errors_are_known_by_how_they_read(
    value: JsonModel,
    lower: Seq<char>,
    status: Seq<char>,
    rest: Seq<char>,
)
    ensures
        value.get("error"@) is Some ==> is_error_value(value),
        value.get("error"@) is None && !(value.at("status"@) is Str) ==> !is_error_value(value),
        value.get("error"@) is None && value.at("status"@) == JsonModel::Str(status) ==> (
        is_error_value(value) == (text::lowercased(text::trim(status)) == "error"@
            || text::lowercased(text::trim(status)) == "failed"@ || text::lowercased(
            text::trim(status),
        ) == "failure"@ || text::lowercased(text::trim(status)) == "timeout"@)),
        begins_like_error("error:"@ + rest),
        begins_like_error("failed:"@ + rest),
        begins_like_error("traceback "@ + rest),
        begins_like_error("exception:"@ + rest),
        begins_like_error(lower) ==> text::starts_with(lower, "error:"@) || text::starts_with(
            lower,
            "failed:"@,
        ) || text::starts_with(lower, "traceback "@) || text::starts_with(lower, "exception:"@),
        !is_error_output(Seq::empty()),
{
    let a = "error:"@;
    let b = "failed:"@;
    let c = "traceback "@;
    let d = "exception:"@;
    assert((a + rest).subrange(0, a.len() as int) =~= a);
    assert((b + rest).subrange(0, b.len() as int) =~= b);
    assert((c + rest).subrange(0, c.len() as int) =~= c);
    assert((d + rest).subrange(0, d.len() as int) =~= d);
}

/// An answer that is JSON is its own payload; one that is not has the payload that a fence
/// of JSON in it holds, where that is JSON.
pub proof fn the_payload_is_the_json_of_the_answer(response: Seq<char>, v: JsonModel)
    ensures
        codec::parsed(text::trim(response)) == Ok::<JsonModel, Seq<char>>(v) ==> payload_of(
            response,
        ) == Some(v),
        codec::parsed(text::trim(response)) is Err && fenced_payload(text::trim(response)) is Some
            ==> payload_of(response) == fenced_payload(text::trim(response)),
{
}

/// A fence of JSON holds what stands between its line and the next fence.
pub proof fn a_fence_of_json_is_read(before: Seq<char>, body: Seq<char>, after: Seq<char>)
    requires
        !text::contains(before + "```json"@.drop_last(), "```json"@),
        text::find(body + "```"@ + after, "```"@) == Some(body.len() as int),
    ensures
        codec::parsed(text::trim(body)) matches Ok(v) ==> fenced_payload(
            before + "```json"@ + body + "```"@ + after,
        ) == Some(v),
{
    let mark = "```json"@;
    let t = before + mark + body + "```"@ + after;
    let start = before.len() as int;
    text::find_from_is_first(t, mark, 0);
    assert(t.subrange(start, start + mark.len()) =~= mark);
    assert(text::occurs_at(t, mark, start));
    let head = before + mark.drop_last();
    reveal_strlit("```json");
    assert forall|j: int| 0 <= j < start implies !text::occurs_at(t, mark, j) by {
        if text::occurs_at(t, mark, j) {
            assert(head.subrange(j, j + mark.len()) =~= t.subrange(j, j + mark.len()));
            assert(text::occurs_at(head, mark, j));
        }
    }
    assert(text::find(t, mark) == Some(start));
    assert(t.skip(start + mark.len()) =~= body + "```"@ + after);
    assert((body + "```"@ + after).take(body.len() as int) =~= body);
}

/// The result of a sub-agent that has answered is what it answered, and no error; that of
/// one that has not is the error, and no answer. Both say how much was done.
pub proof fn a_result_says_what_came_of_it(
    response: Seq<char>,
    err: Seq<char>,
    class: ErrorClassification,
    iterations: usize,
    calls: usize,
    names: Seq<Seq<char>>,
    duration_ms: u64,
    trace: Seq<TraceModel>,
)
    ensures
        ({
            let ok = succeeded(response, iterations, calls, names, duration_ms, trace);
            let no = failed_with(err, class, iterations, calls);
            let told = failed(err, iterations, calls);
            &&& ok.success
            &&& ok.summary == response
            &&& ok.structured_payload == payload_of(response)
            &&& ok.error_message is None
            &&& ok.error_classification == ErrorClassification::NoError
            &&& ok.usage.iterations == iterations
            &&& ok.usage.tool_calls == calls
            &&& ok.tool_summary == tally(names)
            &&& ok.tool_trace == trace
            &&& ok.duration_ms == duration_ms
            &&& !no.success
            &&& no.error_message == Some(err)
            &&& no.error_classification == class
            &&& no.summary.len() == 0
            &&& no.structured_payload is None
            &&& no.usage.iterations == iterations
            &&& no.usage.tool_calls == calls
            &&& !told.success
            &&& told.error_message == Some(err)
            &&& told.error_classification == error_class(text::lowercased(err), err.len() == 0)
        }),
{
}

/// A result that is handed on as JSON can be read back from it, field by field.
pub proof fn a_result_is_read_back(r: SubagentModel)
    ensures
        ({
            let o = result_fields(r);
            &&& json::field_of(o, "summary"@) == Some(JsonModel::Str(r.summary))
            &&& r.structured_payload matches Some(p) ==> json::field_of(o, "structured_payload"@)
                == Some(p)
            &&& json::field_of(o, "success"@) == Some(JsonModel::Bool(r.success))
            &&& json::field_of(o, "error_classification"@) == Some(
                JsonModel::Str(class_name(r.error_classification)),
            )
            &&& r.error_message matches Some(e) ==> json::field_of(o, "error_message"@) == Some(
                JsonModel::Str(e),
            )
            &&& r.error_message is None ==> json::field_of(o, "error_message"@) == Some(
                JsonModel::Null,
            )
            &&& json::field_of(o, "duration_ms"@) == Some(JsonModel::Int(r.duration_ms as int))
            &&& json::field_of(o, "result_hash"@) == Some(JsonModel::Str(r.result_hash))
            &&& json::field_of(o, "usage"@) == Some(usage_json(r.usage))
            &&& json::field_of(o, "tool_summary"@) == Some(tool_summary_json(r.tool_summary))
            &&& json::field_of(o, "tool_trace"@) == Some(trace_json(r.tool_trace))
        }),
{
    let o = result_fields(r);
    reveal_strlit("summary");
    reveal_strlit("structured_payload");
    reveal_strlit("success");
    reveal_strlit("error_classification");
    reveal_strlit("error_message");
    reveal_strlit("usage");
    reveal_strlit("tool_summary");
    reveal_strlit("tool_trace");
    reveal_strlit("duration_ms");
    reveal_strlit("result_hash");
    assert("summary"@.len() == 7);
    assert("structured_payload"@.len() == 18);
    assert("success"@.len() == 7);
    assert("error_classification"@.len() == 20);
    assert("error_message"@.len() == 13);
    assert("usage"@.len() == 5);
    assert("tool_summary"@.len() == 12);
    assert("tool_trace"@.len() == 10);
    assert("duration_ms"@.len() == 11);
    assert("result_hash"@.len() == 11);
    assert("duration_ms"@[0] == 'd');
    assert("result_hash"@[0] == 'r');
    assert("success"@[2] == 'c');
    assert("summary"@[2] == 'm');
    json::a_field_is_found(o, 0);
    json::a_field_is_found(o, 1);
    json::a_field_is_found(o, 2);
    json::a_field_is_found(o, 3);
    json::a_field_is_found(o, 4);
    json::a_field_is_found(o, 5);
    json::a_field_is_found(o, 6);
    json::a_field_is_found(o, 7);
    json::a_field_is_found(o, 8);
    json::a_field_is_found(o, 9);
}

/// What was used is read back from its JSON.
pub proof fn usage_is_read_back(u: UsageMetadata)
    ensures
        usage_json(u).get("iterations"@) == Some(JsonModel::Int(u.iterations as int)),
        usage_json(u).get("tool_calls"@) == Some(JsonModel::Int(u.tool_calls as int)),
        usage_json(u).get("subagents_spawned"@) == Some(
            JsonModel::Int(u.subagents_spawned as int),
        ),
        usage_json(u).get("compressions"@) == Some(JsonModel::Int(u.compressions as int)),
{
    let o = usage_json(u)->Object_0;
    reveal_strlit("iterations");
    reveal_strlit("tool_calls");
    reveal_strlit("subagents_spawned");
    reveal_strlit("compressions");
    assert("iterations"@.len() == 10);
    assert("tool_calls"@.len() == 10);
    assert("subagents_spawned"@.len() == 17);
    assert("compressions"@.len() == 12);
    assert("iterations"@[0] == 'i');
    assert("tool_calls"@[0] == 't');
    json::a_field_is_found(o, 0);
    json::a_field_is_found(o, 1);
    json::a_field_is_found(o, 2);
    json::a_field_is_found(o, 3);
}

/// What was traced is read back from its JSON, entry by entry.
pub proof fn a_trace_is_read_back(entries: Seq<TraceModel>, i: int)
    requires
        0 <= i < entries.len(),
    ensures
        trace_json(entries).get("entries"@) matches Some(JsonModel::Array(a)) && a.len()
            == entries.len() && a[i].get("tool"@) == Some(JsonModel::Str(entries[i].tool))
            && a[i].get("preview"@) == Some(JsonModel::Str(entries[i].preview)) && a[i].get(
            "is_error"@,
        ) == Some(JsonModel::Bool(entries[i].is_error)) && a[i].get("arguments"@)
            == entries[i].arguments,
{
    let o = trace_json(entries)->Object_0;
    json::a_field_is_found(o, 0);
    let a = o[0].1->Array_0;
    let e = entries[i];
    assert(a[i] == trace_entry_json(e));
    let f = trace_entry_json(e)->Object_0;
    reveal_strlit("tool");
    reveal_strlit("arguments");
    reveal_strlit("preview");
    reveal_strlit("is_error");
    assert("tool"@.len() == 4);
    assert("arguments"@.len() == 9);
    assert("preview"@.len() == 7);
    assert("is_error"@.len() == 8);
    json::a_field_is_found(f, 0);
    if e.arguments is Some {
        json::a_field_is_found(f, 1);
        json::a_field_is_found(f, 2);
        json::a_field_is_found(f, 3);
    } else {
        json::a_field_is_found(f, 1);
        json::a_field_is_found(f, 2);
        json::key_from_bounds(f, "arguments"@, 0);
    }
}

/// What a tool gave back as JSON, an object or an array, is an error where the value is one;
/// any other text is one exactly where its first line begins as an error does.
pub proof fn outputs_that_are_errors(content: Seq<char>, value: JsonModel)
    requires
        content.len() > 0,
    ensures
        ({
            let t = text::trim_start(content);
            let json = text::starts_with(t, "{"@) || text::starts_with(t, "["@);
            let said = begins_like_error(text::lowercased(text::trim(first_line(content))));
            &&& text::starts_with(t, "{"@) && codec::parsed(t) == Ok::<JsonModel, Seq<char>>(value)
                && is_error_value(value) ==> is_error_output(content)
            &&& text::starts_with(t, "["@) && codec::parsed(t) == Ok::<JsonModel, Seq<char>>(value)
                && is_error_value(value) ==> is_error_output(content)
            &&& said ==> is_error_output(content)
            &&& !said && !json ==> !is_error_output(content)
            &&& !said && codec::parsed(t) is Err ==> !is_error_output(content)
            &&& !said && codec::parsed(t) == Ok::<JsonModel, Seq<char>>(value) && !is_error_value(
                value,
            ) ==> !is_error_output(content)
        }),
{
}

/// A result has a mark of what it says, of sixteen digits, so that what says the same has the
/// same mark.
pub proof fn a_mark_is_of_what_is_said(
    response: Seq<char>,
    err: Seq<char>,
    class: ErrorClassification,
    iterations: usize,
    calls: usize,
    names: Seq<Seq<char>>,
    duration_ms: u64,
    trace: Seq<TraceModel>,
)
    ensures
        ({
            let ok = succeeded(response, iterations, calls, names, duration_ms, trace);
            let no = failed_with(err, class, iterations, calls);
            &&& ok.result_hash == text::hex_padded(ids::text_hash(response) as nat, 16)
            &&& no.result_hash == text::hex_padded(ids::text_hash(err) as nat, 16)
            &&& ok.result_hash.len() == 16
            &&& no.result_hash.len() == 16
            &&& response == err ==> ok.result_hash == no.result_hash
        }),
{
    text::hexadecimal_digits_are_as_many_as_asked_for(ids::text_hash(response) as nat, 16);
    text::hexadecimal_digits_are_as_many_as_asked_for(ids::text_hash(err) as nat, 16);
}

} // verus!

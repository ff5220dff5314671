//! Guards on the calls of tools: the same call is not made twice in a round, loops and
//! series of failures are stopped, and costly tools have a budget.
use vstd::prelude::*;

use crate::config::GuardrailConfig;
use crate::context::tool_pruning::among;
use crate::ids;
use crate::ids::hash_text;
use crate::json::codec;
use crate::json::codec::to_text;
use crate::json::equal;
use crate::llm::{ToolCall, ToolCallModel};
use crate::seqs;
use crate::text;
use crate::text::{decimal_text, join_text, same_text};

verus! {

broadcast use crate::seqs::group_views;

/// What a guard says of calls.
#[derive(Debug, PartialEq, Eq)]
pub enum GuardrailVerdict {
    /// They are made.
    Pass,
    /// They are made, and the model is warned.
    Warn(String),
    /// The turn ends.
    Halt(String),
}

/// What a guard says of calls.
pub enum VerdictModel {
    Pass,
    Warn(Seq<char>),
    Halt(Seq<char>),
}

impl View for GuardrailVerdict {
    type V = VerdictModel;

    open spec fn view(&self) -> VerdictModel {
        match self {
            GuardrailVerdict::Pass => VerdictModel::Pass,
            GuardrailVerdict::Warn(s) => VerdictModel::Warn(s@),
            GuardrailVerdict::Halt(s) => VerdictModel::Halt(s@),
        }
    }
}

/// What the model is warned of.
pub open spec fn warning_of(verdict: VerdictModel) -> Option<Seq<char>> {
    match verdict {
        VerdictModel::Warn(message) => Some(message),
        _ => None,
    }
}

/// A tool that changes nothing.
pub open spec fn is_idempotent(name: Seq<char>) -> bool {
    ||| name == "read_file"@
    ||| name == "list_dir"@
    ||| name == "search_files"@
    ||| name == "web_search"@
    ||| name == "web_extract"@
    ||| name == "http_get"@
    ||| name == "todo_list"@
    ||| name == "skills_list"@
    ||| name == "skill_view"@
    ||| name == "echo"@
}

/// A tool whose success is progress.
pub open spec fn is_progress(name: Seq<char>) -> bool {
    ||| name == "write_file"@
    ||| name == "patch"@
    ||| name == "terminal"@
    ||| name == "run_shell"@
    ||| name == "execute_code"@
    ||| name == "process_manage"@
    ||| name == "skill_manage"@
}

/// A tool whose failures are part of its work.
pub open spec fn is_tolerant(name: Seq<char>) -> bool {
    name == "terminal"@ || name == "run_shell"@ || name == "execute_code"@
}

/// Whether the tool changes nothing.
fn changes_nothing(name: &str) -> (r: bool)
    ensures
        r == is_idempotent(name@),
{
    same_text(name, "read_file") || same_text(name, "list_dir") || same_text(name, "search_files")
        || same_text(name, "web_search") || same_text(name, "web_extract") || same_text(
        name,
        "http_get",
    ) || same_text(name, "todo_list") || same_text(name, "skills_list") || same_text(
        name,
        "skill_view",
    ) || same_text(name, "echo")
}

/// Whether the success of the tool is progress.
fn makes_progress(name: &str) -> (r: bool)
    ensures
        r == is_progress(name@),
{
    same_text(name, "write_file") || same_text(name, "patch") || same_text(name, "terminal")
        || same_text(name, "run_shell") || same_text(name, "execute_code") || same_text(
        name,
        "process_manage",
    ) || same_text(name, "skill_manage")
}

/// Whether the failures of the tool are part of its work.
fn tolerates_failure(name: &str) -> (r: bool)
    ensures
        r == is_tolerant(name@),
{
    same_text(name, "terminal") || same_text(name, "run_shell") || same_text(name, "execute_code")
}

/// By what a call is recognised: its tool, and a fingerprint of its arguments.
pub type Mark = (Seq<char>, u64);

/// By what a call is recognised.
pub open spec fn mark_of(call: ToolCallModel) -> Mark {
    (call.name, ids::text_hash(codec::compact(call.arguments)))
}

/// The fingerprint of the arguments of a call.
pub fn fingerprint(call: &ToolCall) -> (r: u64)
    ensures
        r == mark_of(call@).1,
{
    let text = to_text(&call.arguments);
    hash_text(text.as_str())
}

/// The entries of the window.
pub open spec fn marks(window: Seq<(String, u64)>) -> Seq<Mark> {
    Seq::new(window.len(), |i: int| (window[i].0@, window[i].1))
}

// ---------- the same call in one round ----------

/// Two calls of the same tool with the same arguments.
pub open spec fn same_call(a: ToolCallModel, b: ToolCallModel) -> bool {
    a.name == b.name && equal::same_json(a.arguments, b.arguments)
}

/// The call is made among others.
pub open spec fn is_repeat(calls: Seq<ToolCallModel>, call: ToolCallModel) -> bool {
    exists|i: int| 0 <= i < calls.len() && same_call(#[trigger] calls[i], call)
}

/// The calls without those that repeat an earlier one.
pub open spec fn without_repeats(calls: Seq<ToolCallModel>) -> Seq<ToolCallModel>
    decreases calls.len(),
{
    if calls.len() == 0 {
        Seq::empty()
    } else {
        let rest = without_repeats(calls.drop_last());
        if is_repeat(rest, calls.last()) {
            rest
        } else {
            rest.push(calls.last())
        }
    }
}

// ---------- loops and budgets ----------

/// What is remembered of the calls of a turn.
pub struct CallLog {
    /// The last calls of tools that change nothing.
    pub window: Seq<Mark>,
    pub web_searches: int,
    pub subagents: int,
}

/// The last entries of a window.
pub open spec fn last_entries(window: Seq<Mark>, n: int) -> Seq<Mark> {
    if window.len() <= n {
        window
    } else {
        window.skip(window.len() - n)
    }
}

/// The verdict on a tool whose budget is used up.
pub open spec fn over_budget(
    tool: Seq<char>,
    count: int,
    max: u32,
    budget: Seq<char>,
) -> VerdictModel {
    VerdictModel::Halt(
        "Guardrail halt: "@ + tool + " called "@ + text::decimal(count as nat)
            + " times this turn (max="@ + text::decimal(max as nat)
            + "). You have exhausted your "@ + budget + " budget for this turn."@,
    )
}

/// The verdict on a call that was made so many times.
pub open spec fn repeat_verdict(
    config: GuardrailConfig,
    tool: Seq<char>,
    count: int,
) -> VerdictModel {
    if count >= config.max_duplicate_calls {
        VerdictModel::Halt(
            "Guardrail halt: tool '"@ + tool + "' called with identical arguments "@
                + text::decimal(count as nat) + " times within the last "@ + text::decimal(
                config.loop_window as nat,
            )
                + " calls. This looks like an infinite loop. Try a different approach or stop."@,
        )
    } else if count + 1 == config.max_duplicate_calls {
        VerdictModel::Warn(
            "Warning: tool '"@ + tool + "' has been called with identical arguments "@
                + text::decimal(count as nat)
                + " times. Repeating again will halt execution. Consider a different approach."@,
        )
    } else {
        VerdictModel::Pass
    }
}

/// What one call does to what is remembered, and the verdict on it.
pub open spec fn check_call(
    config: GuardrailConfig,
    log: CallLog,
    call: ToolCallModel,
) -> (CallLog, VerdictModel) {
    let counted = CallLog {
        web_searches: log.web_searches + if call.name == "web_search"@ {
            1int
        } else {
            0
        },
        subagents: log.subagents + if call.name == "spawn_agent"@ {
            1int
        } else {
            0
        },
        ..log
    };
    if call.name == "web_search"@ && counted.web_searches > config.max_web_searches {
        (
            counted,
            over_budget(
                "web_search"@,
                counted.web_searches,
                config.max_web_searches,
                "web search"@,
            ),
        )
    } else if call.name == "spawn_agent"@ && counted.subagents > config.max_subagents {
        (
            counted,
            over_budget("spawn_agent"@, counted.subagents, config.max_subagents, "sub-agent"@),
        )
    } else if is_idempotent(call.name) {
        let window = last_entries(log.window.push(mark_of(call)), config.loop_window as int);
        (
            CallLog { window, ..counted },
            repeat_verdict(
                config,
                call.name,
                seqs::occurrences(window, mark_of(call)) as int,
            ),
        )
    } else {
        (counted, VerdictModel::Pass)
    }
}

/// The verdict on calls, from that on the first of them, which is no stop, and that on the
/// later ones: a stop counts more than a warning, and an early warning more than a late
/// one.
pub open spec fn graver(first: VerdictModel, later: VerdictModel) -> VerdictModel {
    if later is Halt || first is Pass {
        later
    } else {
        first
    }
}

/// What the calls from `i` on do to what is remembered, and the verdict on them: that of
/// the first call that is stopped, at which the check ends, else the first warning.
pub open spec fn check_calls(
    config: GuardrailConfig,
    log: CallLog,
    calls: Seq<ToolCallModel>,
    i: int,
) -> (CallLog, VerdictModel)
    decreases calls.len() - i,
{
    if i < 0 || i >= calls.len() {
        (log, VerdictModel::Pass)
    } else {
        let (next, verdict) = check_call(config, log, calls[i]);
        if verdict is Halt {
            (next, verdict)
        } else {
            let (end, later) = check_calls(config, next, calls, i + 1);
            (end, graver(verdict, later))
        }
    }
}

/// What is remembered before the call at `k`, once the calls from `i` on are recorded.
pub open spec fn log_before(
    config: GuardrailConfig,
    log: CallLog,
    calls: Seq<ToolCallModel>,
    i: int,
    k: int,
) -> CallLog
    decreases k - i,
{
    if k <= i {
        log
    } else {
        log_before(config, check_call(config, log, calls[i]).0, calls, i + 1, k)
    }
}

// ---------- series of failures ----------

/// How often each tool has failed in a row.
pub type Failures = Map<Seq<char>, nat>;

/// The failures of a tool in a row.
pub open spec fn failures_of(failures: Failures, tool: Seq<char>) -> nat {
    if failures.contains_key(tool) {
        failures[tool]
    } else {
        0
    }
}

/// The verdict on a tool that has failed so many times in a row.
pub open spec fn failing(tool: Seq<char>, count: nat) -> VerdictModel {
    VerdictModel::Halt(
        "Guardrail halt: tool '"@ + tool + "' failed "@ + text::decimal(count)
            + " consecutive times. The tool may be unavailable or your arguments are incorrect. Stop and try an alternative approach."@,
    )
}

/// What the result of one call does to the failures, and the verdict on it: a failure
/// counts, unless it is part of the work of the tool. A success ends the series of the
/// tool, or all of them where it is progress.
pub open spec fn take_result(
    config: GuardrailConfig,
    failures: Failures,
    tool: Seq<char>,
    is_error: bool,
) -> (Failures, VerdictModel) {
    if is_error {
        if is_tolerant(tool) {
            (failures, VerdictModel::Pass)
        } else {
            let count = failures_of(failures, tool) + 1;
            (
                failures.insert(tool, count),
                if count >= config.max_consecutive_failures {
                    failing(tool, count)
                } else {
                    VerdictModel::Pass
                },
            )
        }
    } else if is_progress(tool) {
        (Map::empty(), VerdictModel::Pass)
    } else {
        (failures.remove(tool), VerdictModel::Pass)
    }
}

/// What the results from `i` on do to the failures, and the verdict on them: that of the
/// first result that does not pass.
pub open spec fn take_results(
    config: GuardrailConfig,
    failures: Failures,
    results: Seq<(Seq<char>, bool)>,
    i: int,
) -> (Failures, VerdictModel)
    decreases results.len() - i,
{
    if i < 0 || i >= results.len() {
        (failures, VerdictModel::Pass)
    } else {
        let (next, verdict) = take_result(config, failures, results[i].0, results[i].1);
        if verdict is Pass {
            take_results(config, next, results, i + 1)
        } else {
            (next, verdict)
        }
    }
}

/// The tools and outcomes of results.
pub open spec fn outcomes(results: Seq<(String, bool)>) -> Seq<(Seq<char>, bool)> {
    Seq::new(results.len(), |i: int| (results[i].0@, results[i].1))
}

/// An entry of the tool stands there.
pub open spec fn entry_at(entries: Seq<(String, u32)>, tool: Seq<char>, i: int) -> bool {
    0 <= i < entries.len() && entries[i].0@ == tool
}

/// There is an entry of the tool.
pub open spec fn has_entry(entries: Seq<(String, u32)>, tool: Seq<char>) -> bool {
    exists|i: int| entry_at(entries, tool, i)
}

/// The count of the tool.
pub open spec fn entry_count(entries: Seq<(String, u32)>, tool: Seq<char>) -> nat {
    entries[choose|i: int| entry_at(entries, tool, i)].1 as nat
}

/// The failures that entries stand for.
pub open spec fn as_failures(entries: Seq<(String, u32)>) -> Failures {
    Map::new(|tool: Seq<char>| has_entry(entries, tool), |tool: Seq<char>| entry_count(
        entries,
        tool,
    ))
}

/// No tool has two entries.
pub open spec fn tools_differ(entries: Seq<(String, u32)>) -> bool {
    forall|i: int, j: int|
        0 <= i < j < entries.len() ==> (#[trigger] entries[i]).0@ != (#[trigger] entries[j]).0@
}

/// The count of a tool is that of its entry.
proof fn count_of_entry(entries: Seq<(String, u32)>, tool: Seq<char>, i: int)
    requires
        tools_differ(entries),
        entry_at(entries, tool, i),
    ensures
        has_entry(entries, tool),
        entry_count(entries, tool) == entries[i].1,
{
    let k = choose|k: int| entry_at(entries, tool, k);
    assert(entry_at(entries, tool, k));
    if k < i {
        assert(entries[k].0@ != entries[i].0@);
    } else if i < k {
        assert(entries[i].0@ != entries[k].0@);
    }
}

/// An entry that is added stands for a failure that is added.
proof fn entry_added(entries: Seq<(String, u32)>, e: (String, u32))
    requires
        tools_differ(entries),
        !has_entry(entries, e.0@),
    ensures
        tools_differ(entries.push(e)),
        as_failures(entries.push(e)) == as_failures(entries).insert(e.0@, e.1 as nat),
{
    let all = entries.push(e);
    assert forall|i: int, j: int| 0 <= i < j < all.len() implies (#[trigger] all[i]).0@ != (
    #[trigger] all[j]).0@ by {
        if j == entries.len() {
            assert(!entry_at(entries, e.0@, i));
        } else {
            assert(entries[i].0@ != entries[j].0@);
        }
    }
    assert forall|t: Seq<char>| #[trigger] has_entry(all, t) == (has_entry(entries, t) || t
        == e.0@) by {
        if has_entry(all, t) {
            let k = choose|k: int| entry_at(all, t, k);
            assert(entry_at(all, t, k));
            if k < entries.len() {
                assert(entry_at(entries, t, k));
            }
        }
        if has_entry(entries, t) {
            let k = choose|k: int| entry_at(entries, t, k);
            assert(entry_at(entries, t, k));
            assert(entry_at(all, t, k));
        }
        if t == e.0@ {
            assert(entry_at(all, t, entries.len() as int));
        }
    }
    assert forall|t: Seq<char>| has_entry(all, t) implies #[trigger] entry_count(all, t) == if t
        == e.0@ {
        e.1 as nat
    } else {
        entry_count(entries, t)
    } by {
        let k = choose|k: int| entry_at(all, t, k);
        assert(entry_at(all, t, k));
        count_of_entry(all, t, k);
        if t == e.0@ {
            assert(entry_at(all, t, entries.len() as int));
            count_of_entry(all, t, entries.len() as int);
        } else {
            assert(entry_at(entries, t, k));
            count_of_entry(entries, t, k);
        }
    }
    assert(as_failures(all) =~= as_failures(entries).insert(e.0@, e.1 as nat));
}

/// An entry that is changed stands for a failure that is changed.
proof fn entry_changed(entries: Seq<(String, u32)>, i: int, e: (String, u32))
    requires
        tools_differ(entries),
        entry_at(entries, e.0@, i),
    ensures
        tools_differ(entries.update(i, e)),
        as_failures(entries.update(i, e)) == as_failures(entries).insert(e.0@, e.1 as nat),
{
    let all = entries.update(i, e);
    assert forall|a: int, b: int| 0 <= a < b < all.len() implies (#[trigger] all[a]).0@ != (
    #[trigger] all[b]).0@ by {
        assert(entries[a].0@ != entries[b].0@);
    }
    assert forall|t: Seq<char>| #[trigger] has_entry(all, t) == has_entry(entries, t) by {
        if has_entry(all, t) {
            let k = choose|k: int| entry_at(all, t, k);
            assert(entry_at(all, t, k));
            assert(entry_at(entries, t, k));
        }
        if has_entry(entries, t) {
            let k = choose|k: int| entry_at(entries, t, k);
            assert(entry_at(entries, t, k));
            assert(entry_at(all, t, k));
        }
    }
    count_of_entry(entries, e.0@, i);
    assert forall|t: Seq<char>| has_entry(all, t) implies #[trigger] entry_count(all, t) == if t
        == e.0@ {
        e.1 as nat
    } else {
        entry_count(entries, t)
    } by {
        let k = choose|k: int| entry_at(all, t, k);
        assert(entry_at(all, t, k));
        count_of_entry(all, t, k);
        assert(entry_at(entries, t, k));
        count_of_entry(entries, t, k);
        if t == e.0@ {
            assert(entry_at(all, t, i));
            count_of_entry(all, t, i);
        }
    }
    assert(as_failures(all) =~= as_failures(entries).insert(e.0@, e.1 as nat));
}

/// An entry that is left out stands for a series that has ended.
proof fn entry_removed(entries: Seq<(String, u32)>, i: int)
    requires
        tools_differ(entries),
        0 <= i < entries.len(),
    ensures
        tools_differ(entries.remove(i)),
        as_failures(entries.remove(i)) == as_failures(entries).remove(entries[i].0@),
{
    let all = entries.remove(i);
    let tool = entries[i].0@;
    assert forall|a: int, b: int| 0 <= a < b < all.len() implies (#[trigger] all[a]).0@ != (
    #[trigger] all[b]).0@ by {
        let x = if a < i { a } else { a + 1 };
        let y = if b < i { b } else { b + 1 };
        assert(entries[x].0@ != entries[y].0@);
    }
    assert(entry_at(entries, tool, i));
    assert forall|t: Seq<char>| #[trigger] has_entry(all, t) == (has_entry(entries, t) && t
        != tool) by {
        if has_entry(all, t) {
            let k = choose|k: int| entry_at(all, t, k);
            assert(entry_at(all, t, k));
            let x = if k < i { k } else { k + 1 };
            assert(entry_at(entries, t, x));
            if x < i {
                assert(entries[x].0@ != entries[i].0@);
            } else {
                assert(entries[i].0@ != entries[x].0@);
            }
        }
        if has_entry(entries, t) && t != tool {
            let k = choose|k: int| entry_at(entries, t, k);
            assert(entry_at(entries, t, k));
            let x = if k < i { k } else { k - 1 };
            assert(entry_at(all, t, x));
        }
    }
    assert forall|t: Seq<char>| has_entry(all, t) implies #[trigger] entry_count(all, t)
        == entry_count(entries, t) by {
        let k = choose|k: int| entry_at(all, t, k);
        assert(entry_at(all, t, k));
        count_of_entry(all, t, k);
        let x = if k < i { k } else { k + 1 };
        assert(entry_at(entries, t, x));
        count_of_entry(entries, t, x);
    }
    assert(as_failures(all) =~= as_failures(entries).remove(tool));
}

/// Guards the calls of tools of an agent.
#[derive(Debug)]
pub struct ToolGuardrailController {
    pub config: GuardrailConfig,
    /// The last calls of tools that change nothing.
    pub call_window: Vec<(String, u64)>,
    /// How often each tool has failed in a row.
    pub consecutive_failures: Vec<(String, u32)>,
    pub web_search_count: u32,
    pub subagent_count: u32,
}

impl ToolGuardrailController {
    /// No tool has two entries.
    pub open spec fn wf(self) -> bool {
        tools_differ(self.consecutive_failures@)
    }

    /// What is remembered of the calls.
    pub open spec fn log(self) -> CallLog {
        CallLog {
            window: marks(self.call_window@),
            web_searches: self.web_search_count as int,
            subagents: self.subagent_count as int,
        }
    }

    /// The failures in a row.
    pub open spec fn failures(self) -> Failures {
        as_failures(self.consecutive_failures@)
    }

    /// The counters can count so many more calls.
    pub open spec fn can_count(self, n: int) -> bool {
        &&& self.web_search_count + n <= u32::MAX
        &&& self.subagent_count + n <= u32::MAX
    }

    /// The counters can count so many more failures.
    pub open spec fn can_fail(self, n: int) -> bool {
        &&& n <= u32::MAX
        &&& forall|i: int|
            0 <= i < self.consecutive_failures@.len() ==> (
            #[trigger] self.consecutive_failures@[i]).1 + n <= u32::MAX
    }

    /// A guard that has seen no calls.
    pub fn new(config: GuardrailConfig) -> (r: Self)
        ensures
            r.wf(),
            r.config == config,
            r.log() == (CallLog { window: Seq::empty(), web_searches: 0, subagents: 0 }),
            r.failures() == Map::<Seq<char>, nat>::empty(),
    {
        let r = ToolGuardrailController {
            config,
            call_window: Vec::new(),
            consecutive_failures: Vec::new(),
            web_search_count: 0,
            subagent_count: 0,
        };
        assert(marks(r.call_window@) =~= Seq::<Mark>::empty());
        assert(r.failures() =~= Map::<Seq<char>, nat>::empty());
        r
    }

    /// The calls of a round without those that repeat an earlier one, where that is
    /// asked for.
    pub fn deduplicate(&self, tool_calls: Vec<ToolCall>) -> (r: Vec<ToolCall>)
        ensures
            r.deep_view() == if self.config.deduplicate {
                without_repeats(tool_calls.deep_view())
            } else {
                tool_calls.deep_view()
            },
    {
        if !self.config.deduplicate {
            return tool_calls;
        }
        let ghost all = tool_calls.deep_view();
        let mut out: Vec<ToolCall> = Vec::new();
        let mut i: usize = 0;
        assert(all.take(0) =~= Seq::<ToolCallModel>::empty());
        while i < tool_calls.len()
            invariant
                i <= tool_calls@.len(),
                all == tool_calls.deep_view(),
                out.deep_view() == without_repeats(all.take(i as int)),
            decreases tool_calls@.len() - i,
        {
            proof {
                assert(all.take(i + 1).drop_last() =~= all.take(i as int));
                assert(all.take(i + 1).last() == all[i as int]);
            }
            if !is_made(out.as_slice(), &tool_calls[i]) {
                out.push(tool_calls[i].clone());
            }
            i += 1;
        }
        assert(all.take(i as int) =~= all);
        out
    }

    /// Adds a call to the window; how often the window then holds it.
    fn remember(&mut self, call: &ToolCall) -> (r: usize)
        ensures
            final(self).config == old(self).config,
            final(self).consecutive_failures == old(self).consecutive_failures,
            final(self).web_search_count == old(self).web_search_count,
            final(self).subagent_count == old(self).subagent_count,
            marks(final(self).call_window@) == last_entries(
                marks(old(self).call_window@).push(mark_of(call@)),
                old(self).config.loop_window as int,
            ),
            r == seqs::occurrences(marks(final(self).call_window@), mark_of(call@)),
    {
        let fp: u64 = fingerprint(call);
        let ghost mark = mark_of(call@);
        let ghost before = marks(self.call_window@);
        self.call_window.push((call.name.clone(), fp));
        let ghost added = marks(self.call_window@);
        assert(added =~= before.push(mark));
        let n: usize = self.call_window.len();
        let skip: usize = if n > self.config.loop_window {
            n - self.config.loop_window
        } else {
            0
        };
        let mut window: Vec<(String, u64)> = Vec::new();
        let mut count: usize = 0;
        let mut k: usize = skip;
        assert(added.subrange(skip as int, skip as int) =~= Seq::<Mark>::empty());
        while k < n
            invariant
                skip <= k <= n,
                n == self.call_window@.len(),
                added == marks(self.call_window@),
                added.len() == n,
                fp == mark.1,
                call.name@ == mark.0,
                marks(window@) =~= added.subrange(skip as int, k as int),
                count == seqs::occurrences(added.subrange(skip as int, k as int), mark),
                count <= k - skip,
            decreases n - k,
        {
            proof {
                let next = added.subrange(skip as int, k + 1);
                assert(next.drop_last() =~= added.subrange(skip as int, k as int));
                assert(next.last() == added[k as int]);
            }
            if same_text(self.call_window[k].0.as_str(), call.name.as_str()) && self.call_window[k].1
                == fp {
                count += 1;
            }
            window.push((self.call_window[k].0.clone(), self.call_window[k].1));
            k += 1;
        }
        assert(added.subrange(skip as int, n as int) =~= last_entries(
            added,
            self.config.loop_window as int,
        ));
        self.call_window = window;
        count
    }

    /// Adds the calls of a round to what is remembered, up to one that is stopped; the
    /// verdict on them.
    pub fn check_and_record(&mut self, tool_calls: &[ToolCall]) -> (r: GuardrailVerdict)
        requires
            old(self).can_count(tool_calls@.len() as int),
        ensures
            final(self).config == old(self).config,
            final(self).consecutive_failures == old(self).consecutive_failures,
            (final(self).log(), r@) == check_calls(
                old(self).config,
                old(self).log(),
                tool_calls.deep_view(),
                0,
            ),
    {
        let ghost config = self.config;
        let ghost all = tool_calls.deep_view();
        let ghost start = self.log();
        let mut verdict = GuardrailVerdict::Pass;
        let mut i: usize = 0;
        while i < tool_calls.len()
            invariant
                i <= tool_calls@.len(),
                all == tool_calls.deep_view(),
                self.config == config,
                config == old(self).config,
                start == old(self).log(),
                self.consecutive_failures == old(self).consecutive_failures,
                self.can_count(tool_calls@.len() - i),
                !(verdict@ is Halt),
                ({
                    let (end, later) = check_calls(config, self.log(), all, i as int);
                    check_calls(config, start, all, 0) == (end, graver(verdict@, later))
                }),
            decreases tool_calls@.len() - i,
        {
            let call = &tool_calls[i];
            assert(all[i as int] == call@);
            let ghost log = self.log();
            let name = call.name.as_str();
            proof {
                reveal_strlit("web_search");
                reveal_strlit("spawn_agent");
                assert("web_search"@[0] != "spawn_agent"@[0]);
            }
            if same_text(name, "web_search") {
                self.web_search_count = self.web_search_count + 1;
                if self.web_search_count > self.config.max_web_searches {
                    let text = budget_text(
                        "web_search",
                        self.web_search_count,
                        self.config.max_web_searches,
                        "web search",
                    );
                    return GuardrailVerdict::Halt(text);
                }
            } else if same_text(name, "spawn_agent") {
                self.subagent_count = self.subagent_count + 1;
                if self.subagent_count > self.config.max_subagents {
                    let text = budget_text(
                        "spawn_agent",
                        self.subagent_count,
                        self.config.max_subagents,
                        "sub-agent",
                    );
                    return GuardrailVerdict::Halt(text);
                }
            }
            if changes_nothing(name) {
                let count: usize = self.remember(call);
                if count as u64 >= self.config.max_duplicate_calls as u64 {
                    let mut s = String::from_str("Guardrail halt: tool '");
                    s.append(name);
                    s.append("' called with identical arguments ");
                    s.append(decimal_text(count as u64).as_str());
                    s.append(" times within the last ");
                    s.append(decimal_text(self.config.loop_window as u64).as_str());
                    s.append(
                        " calls. This looks like an infinite loop. Try a different approach or stop.",
                    );
                    return GuardrailVerdict::Halt(s);
                }
                let passed = match verdict {
                    GuardrailVerdict::Pass => true,
                    _ => false,
                };
                if passed && count as u64 + 1 == self.config.max_duplicate_calls as u64 {
                    let mut s = String::from_str("Warning: tool '");
                    s.append(name);
                    s.append("' has been called with identical arguments ");
                    s.append(decimal_text(count as u64).as_str());
                    s.append(
                        " times. Repeating again will halt execution. Consider a different approach.",
                    );
                    verdict = GuardrailVerdict::Warn(s);
                }
            }
            i += 1;
        }
        verdict
    }

    /// Where the entry of a tool stands.
    fn find_entry(&self, tool: &str) -> (r: Option<usize>)
        ensures
            match r {
                Some(i) => entry_at(self.consecutive_failures@, tool@, i as int),
                None => !has_entry(self.consecutive_failures@, tool@),
            },
    {
        let mut i: usize = 0;
        while i < self.consecutive_failures.len()
            invariant
                i <= self.consecutive_failures@.len(),
                forall|j: int| 0 <= j < i ==> !entry_at(self.consecutive_failures@, tool@, j),
            decreases self.consecutive_failures@.len() - i,
        {
            if same_text(self.consecutive_failures[i].0.as_str(), tool) {
                return Some(i);
            }
            i += 1;
        }
        None
    }

    /// Takes in the results of a round: the tools and whether they failed. The verdict
    /// on them.
    pub fn record_results(&mut self, results: &[(String, bool)]) -> (r: GuardrailVerdict)
        requires
            old(self).wf(),
            old(self).can_fail(results@.len() as int),
        ensures
            final(self).wf(),
            final(self).config == old(self).config,
            final(self).log() == old(self).log(),
            (final(self).failures(), r@) == take_results(
                old(self).config,
                old(self).failures(),
                outcomes(results@),
                0,
            ),
    {
        let ghost config = self.config;
        let ghost all = outcomes(results@);
        let ghost start = self.failures();
        let mut i: usize = 0;
        while i < results.len()
            invariant
                i <= results@.len(),
                all == outcomes(results@),
                self.wf(),
                self.config == config,
                config == old(self).config,
                start == old(self).failures(),
                self.log() == old(self).log(),
                self.can_fail(results@.len() - i),
                take_results(config, start, all, 0) == take_results(
                    config,
                    self.failures(),
                    all,
                    i as int,
                ),
            decreases results@.len() - i,
        {
            let tool = results[i].0.as_str();
            let is_error = results[i].1;
            assert(all[i as int] == (tool@, is_error));
            let ghost entries = self.consecutive_failures@;
            if is_error {
                if !tolerates_failure(tool) {
                    let count: u32 = match self.find_entry(tool) {
                        Some(k) => {
                            proof {
                                count_of_entry(entries, tool@, k as int);
                            }
                            let count: u32 = self.consecutive_failures[k].1 + 1;
                            let e = (String::from_str(tool), count);
                            proof {
                                entry_changed(entries, k as int, e);
                            }
                            self.consecutive_failures.set(k, e);
                            count
                        },
                        None => {
                            let e = (String::from_str(tool), 1);
                            proof {
                                entry_added(entries, e);
                            }
                            self.consecutive_failures.push(e);
                            1
                        },
                    };
                    if count >= self.config.max_consecutive_failures {
                        let mut s = String::from_str("Guardrail halt: tool '");
                        s.append(tool);
                        s.append("' failed ");
                        s.append(decimal_text(count as u64).as_str());
                        s.append(
                            " consecutive times. The tool may be unavailable or your arguments are incorrect. Stop and try an alternative approach.",
                        );
                        return GuardrailVerdict::Halt(s);
                    }
                }
            } else if makes_progress(tool) {
                self.consecutive_failures = Vec::new();
                assert(self.failures() =~= Map::<Seq<char>, nat>::empty());
            } else {
                match self.find_entry(tool) {
                    Some(k) => {
                        proof {
                            entry_removed(entries, k as int);
                        }
                        self.consecutive_failures.remove(k);
                        assert(self.consecutive_failures@ =~= entries.remove(k as int));
                        assert forall|j: int| 0 <= j < self.consecutive_failures@.len() implies (
                        #[trigger] self.consecutive_failures@[j]).1 + (results@.len() - i)
                            <= u32::MAX by {
                            let x = if j < k { j } else { j + 1 };
                            assert(self.consecutive_failures@[j] == entries[x]);
                        }
                    },
                    None => {
                        assert(self.failures() =~= self.failures().remove(tool@));
                    },
                }
            }
            i += 1;
        }
        GuardrailVerdict::Pass
    }

    /// The calls of tools that there are, and for each other call its identifier and
    /// what the model is told.
    pub fn validate_tool_names(&self, tool_calls: Vec<ToolCall>, valid_names: &[String]) -> (r: (
        Vec<ToolCall>,
        Vec<(String, String)>,
    ))
        ensures
            r.0.deep_view() == tool_calls.deep_view().filter(
                |c: ToolCallModel| valid_names.deep_view().contains(c.name),
            ),
            answers(r.1@) == rejections(tool_calls.deep_view(), valid_names.deep_view()),
    {
        let ghost all = tool_calls.deep_view();
        let ghost names = valid_names.deep_view();
        let ghost known = |c: ToolCallModel| names.contains(c.name);
        let mut valid: Vec<ToolCall> = Vec::new();
        let mut invalid: Vec<(String, String)> = Vec::new();
        let mut i: usize = 0;
        assert(all.take(0).filter(known) =~= Seq::<ToolCallModel>::empty());
        assert(all.take(0) =~= Seq::<ToolCallModel>::empty());
        assert(answers(invalid@) =~= Seq::<(Seq<char>, Seq<char>)>::empty());
        while i < tool_calls.len()
            invariant
                i <= tool_calls@.len(),
                all == tool_calls.deep_view(),
                names == valid_names.deep_view(),
                known == (|c: ToolCallModel| names.contains(c.name)),
                valid.deep_view() == all.take(i as int).filter(known),
                answers(invalid@) == rejections(all.take(i as int), names),
            decreases tool_calls@.len() - i,
        {
            proof {
                reveal(Seq::filter);
                assert(all.take(i + 1).drop_last() =~= all.take(i as int));
                assert(all.take(i + 1).last() == all[i as int]);
            }
            if among(valid_names, tool_calls[i].name.as_str()) {
                valid.push(tool_calls[i].clone());
            } else {
                let mut s = String::from_str("Tool '");
                s.append(tool_calls[i].name.as_str());
                s.append("' not found. Available tools: ");
                s.append(join_text(valid_names, ", ").as_str());
                let ghost before = invalid@;
                invalid.push((tool_calls[i].id.clone(), s));
                assert(answers(invalid@) =~= answers(before).push(
                    (all[i as int].id, unknown_tool(all[i as int].name, names)),
                ));
            }
            i += 1;
        }
        assert(all.take(i as int) =~= all);
        (valid, invalid)
    }
}

/// Whether the call is made among others.
fn is_made(calls: &[ToolCall], call: &ToolCall) -> (r: bool)
    ensures
        r == is_repeat(calls.deep_view(), call@),
{
    let ghost all = calls.deep_view();
    let mut i: usize = 0;
    while i < calls.len()
        invariant
            i <= calls@.len(),
            all == calls.deep_view(),
            forall|j: int| 0 <= j < i ==> !same_call(#[trigger] all[j], call@),
        decreases calls@.len() - i,
    {
        assert(all[i as int] == calls@[i as int]@);
        if same_text(calls[i].name.as_str(), call.name.as_str()) && calls[i].arguments.same(
            &call.arguments,
        ) {
            assert(same_call(all[i as int], call@));
            return true;
        }
        i += 1;
    }
    false
}

/// The text of a budget that is used up.
fn budget_text(tool: &str, count: u32, max: u32, budget: &str) -> (r: String)
    ensures
        VerdictModel::Halt(r@) == over_budget(tool@, count as int, max, budget@),
{
    let mut s = String::from_str("Guardrail halt: ");
    s.append(tool);
    s.append(" called ");
    s.append(decimal_text(count as u64).as_str());
    s.append(" times this turn (max=");
    s.append(decimal_text(max as u64).as_str());
    s.append("). You have exhausted your ");
    s.append(budget);
    s.append(" budget for this turn.");
    s
}

/// What the model is told of a tool that there is not.
pub open spec fn unknown_tool(tool: Seq<char>, names: Seq<Seq<char>>) -> Seq<char> {
    "Tool '"@ + tool + "' not found. Available tools: "@ + text::join(names, ", "@)
}

/// What the model is told of the calls of tools that there are not.
pub open spec fn rejections(
    calls: Seq<ToolCallModel>,
    names: Seq<Seq<char>>,
) -> Seq<(Seq<char>, Seq<char>)>
    decreases calls.len(),
{
    if calls.len() == 0 {
        Seq::empty()
    } else {
        let rest = rejections(calls.drop_last(), names);
        if names.contains(calls.last().name) {
            rest
        } else {
            rest.push((calls.last().id, unknown_tool(calls.last().name, names)))
        }
    }
}

/// The identifiers and answers of calls.
pub open spec fn answers(v: Seq<(String, String)>) -> Seq<(Seq<char>, Seq<char>)> {
    Seq::new(v.len(), |i: int| (v[i].0@, v[i].1@))
}

// ---------- laws ----------

/// No two of the calls that are left are the same, and each call that there was is one of
/// them or the same as one of them.
pub proof fn repeats_are_made_once(calls: Seq<ToolCallModel>)
    ensures
        forall|i: int, j: int|
            0 <= i < j < without_repeats(calls).len() ==> !same_call(
                #[trigger] without_repeats(calls)[i],
                #[trigger] without_repeats(calls)[j],
            ),
        forall|k: int|
            0 <= k < calls.len() ==> without_repeats(calls).contains(#[trigger] calls[k])
                || is_repeat(without_repeats(calls), calls[k]),
    decreases calls.len(),
{
    if calls.len() > 0 {
        let first = calls.drop_last();
        let rest = without_repeats(first);
        let all = without_repeats(calls);
        repeats_are_made_once(first);
        assert forall|i: int, j: int| 0 <= i < j < all.len() implies !same_call(
            #[trigger] all[i],
            #[trigger] all[j],
        ) by {
            assert(all[i] == rest[i]);
            if j < rest.len() {
                assert(!same_call(rest[i], rest[j]));
            }
        }
        assert forall|k: int| 0 <= k < calls.len() implies all.contains(#[trigger] calls[k])
            || is_repeat(all, calls[k]) by {
            if k < first.len() {
                assert(calls[k] == first[k]);
                if rest.contains(first[k]) {
                    let m = choose|m: int| 0 <= m < rest.len() && rest[m] == first[k];
                    assert(all[m] == calls[k]);
                } else {
                    let m = choose|m: int|
                        0 <= m < rest.len() && same_call(#[trigger] rest[m], first[k]);
                    assert(same_call(all[m], calls[k]));
                }
            } else if !is_repeat(rest, calls.last()) {
                assert(all[all.len() - 1] == calls[k]);
            }
        }
    }
}

/// So many times the same entry.
pub open spec fn same_entries(mark: Mark, n: nat) -> Seq<Mark> {
    Seq::new(n, |i: int| mark)
}

/// An entry occurs as often as it was added.
proof fn same_entries_occur(mark: Mark, n: nat)
    ensures
        seqs::occurrences(same_entries(mark, n), mark) == n,
    decreases n,
{
    if n > 0 {
        same_entries_occur(mark, (n - 1) as nat);
        assert(same_entries(mark, n).drop_last() =~= same_entries(mark, (n - 1) as nat));
    }
}

/// A call of a tool that changes nothing, made again and again, passes at first, is warned
/// of before the limit and stopped at the limit, where the window is as long as the limit.
pub proof fn a_loop_is_stopped(config: GuardrailConfig, log: CallLog, call: ToolCallModel, n: nat)
    requires
        is_idempotent(call.name),
        call.name == "web_search"@ ==> log.web_searches < config.max_web_searches,
        log.window == same_entries(mark_of(call), n),
        n < config.max_duplicate_calls <= config.loop_window,
    ensures
        ({
            let (next, verdict) = check_call(config, log, call);
            &&& next.window == same_entries(mark_of(call), n + 1)
            &&& verdict is Halt == (n + 1 >= config.max_duplicate_calls)
            &&& verdict is Warn == (n + 2 == config.max_duplicate_calls)
            &&& verdict is Pass == (n + 2 < config.max_duplicate_calls)
        }),
{
    let mark = mark_of(call);
    let window = log.window.push(mark);
    assert(window =~= same_entries(mark, n + 1));
    same_entries_occur(mark, n + 1);
    reveal_strlit("spawn_agent");
    reveal_strlit("read_file");
    reveal_strlit("list_dir");
    reveal_strlit("search_files");
    reveal_strlit("web_search");
    reveal_strlit("web_extract");
    reveal_strlit("http_get");
    reveal_strlit("todo_list");
    reveal_strlit("skills_list");
    reveal_strlit("skill_view");
    reveal_strlit("echo");
    assert("spawn_agent"@.len() == 11 && "spawn_agent"@[1] == 'p');
}

/// Calls that are not stopped stay within the budgets.
pub proof fn calls_that_are_made_keep_the_budgets(
    config: GuardrailConfig,
    log: CallLog,
    calls: Seq<ToolCallModel>,
    i: int,
)
    requires
        0 <= i,
        log.web_searches <= config.max_web_searches,
        log.subagents <= config.max_subagents,
        !(check_calls(config, log, calls, i).1 is Halt),
    ensures
        check_calls(config, log, calls, i).0.web_searches <= config.max_web_searches,
        check_calls(config, log, calls, i).0.subagents <= config.max_subagents,
    decreases calls.len() - i,
{
    if i < calls.len() {
        let (next, verdict) = check_call(config, log, calls[i]);
        calls_that_are_made_keep_the_budgets(config, next, calls, i + 1);
    }
}

/// The calls are stopped exactly when one of them is, whatever was said of those before
/// it. Where none is, all of them are recorded.
pub proof fn a_warning_hides_no_stop(
    config: GuardrailConfig,
    log: CallLog,
    calls: Seq<ToolCallModel>,
    i: int,
)
    requires
        0 <= i <= calls.len(),
    ensures
        check_calls(config, log, calls, i).1 is Halt == exists|k: int|
            i <= k < calls.len() && (#[trigger] check_call(
                config,
                log_before(config, log, calls, i, k),
                calls[k],
            )).1 is Halt,
        !(check_calls(config, log, calls, i).1 is Halt) ==> check_calls(config, log, calls, i).0
            == log_before(config, log, calls, i, calls.len() as int),
    decreases calls.len() - i,
{
    if i < calls.len() {
        let (next, verdict) = check_call(config, log, calls[i]);
        assert(log_before(config, log, calls, i, i) == log);
        if verdict is Halt {
            assert(check_call(config, log_before(config, log, calls, i, i), calls[i]).1 is Halt);
        } else {
            a_warning_hides_no_stop(config, next, calls, i + 1);
            assert forall|k: int| i < k implies #[trigger] log_before(config, log, calls, i, k)
                == log_before(config, next, calls, i + 1, k) by {}
            if check_calls(config, next, calls, i + 1).1 is Halt {
                let k = choose|k: int|
                    i + 1 <= k < calls.len() && (#[trigger] check_call(
                        config,
                        log_before(config, next, calls, i + 1, k),
                        calls[k],
                    )).1 is Halt;
                assert(check_call(config, log_before(config, log, calls, i, k), calls[k]).1 is Halt);
            }
            if exists|k: int|
                i <= k < calls.len() && (#[trigger] check_call(
                    config,
                    log_before(config, log, calls, i, k),
                    calls[k],
                )).1 is Halt {
                let k = choose|k: int|
                    i <= k < calls.len() && (#[trigger] check_call(
                        config,
                        log_before(config, log, calls, i, k),
                        calls[k],
                    )).1 is Halt;
                assert(check_call(
                    config,
                    log_before(config, next, calls, i + 1, k),
                    calls[k],
                ).1 is Halt);
            }
        }
    }
}

/// The window never holds more calls than it may.
pub proof fn the_window_is_bounded(
    config: GuardrailConfig,
    log: CallLog,
    calls: Seq<ToolCallModel>,
    i: int,
)
    requires
        0 <= i,
        log.window.len() <= config.loop_window,
    ensures
        check_calls(config, log, calls, i).0.window.len() <= config.loop_window,
    decreases calls.len() - i,
{
    if i < calls.len() {
        let (next, verdict) = check_call(config, log, calls[i]);
        the_window_is_bounded(config, next, calls, i + 1);
    }
}

/// A failure of a tool stops the agent exactly when it completes a series of so many
/// failures in a row; the failures of other tools stay as they were.
pub proof fn a_series_of_failures_is_stopped(
    config: GuardrailConfig,
    failures: Failures,
    tool: Seq<char>,
    other: Seq<char>,
)
    requires
        !is_tolerant(tool),
        other != tool,
    ensures
        ({
            let (next, verdict) = take_result(config, failures, tool, true);
            &&& failures_of(next, tool) == failures_of(failures, tool) + 1
            &&& failures_of(next, other) == failures_of(failures, other)
            &&& verdict is Halt == (failures_of(failures, tool) + 1
                >= config.max_consecutive_failures)
            &&& verdict is Pass == !(verdict is Halt)
        }),
{
}

/// A success ends the series of failures of its tool; where it is progress, it ends all
/// series. It never stops the agent.
pub proof fn a_success_ends_the_series(
    config: GuardrailConfig,
    failures: Failures,
    tool: Seq<char>,
    other: Seq<char>,
)
    ensures
        ({
            let (next, verdict) = take_result(config, failures, tool, false);
            &&& verdict is Pass
            &&& failures_of(next, tool) == 0
            &&& is_progress(tool) ==> failures_of(next, other) == 0
            &&& !is_progress(tool) && other != tool ==> failures_of(next, other)
                == failures_of(failures, other)
        }),
{
}

/// The failures of tools of which they are part of the work count for nothing.
pub proof fn tolerated_failures_do_not_count(
    config: GuardrailConfig,
    failures: Failures,
    tool: Seq<char>,
)
    requires
        is_tolerant(tool),
    ensures
        take_result(config, failures, tool, true) == (failures, VerdictModel::Pass),
{
}

/// Every call is either made or answered with an error.
pub proof fn calls_are_made_or_rejected(calls: Seq<ToolCallModel>, names: Seq<Seq<char>>)
    ensures
        calls.filter(|c: ToolCallModel| names.contains(c.name)).len() + rejections(
            calls,
            names,
        ).len() == calls.len(),
    decreases calls.len(),
{
    reveal(Seq::filter);
    if calls.len() > 0 {
        calls_are_made_or_rejected(calls.drop_last(), names);
    }
}

/// Results without a failure never stop a run.
pub proof fn successes_pass(
    config: GuardrailConfig,
    failures: Failures,
    results: Seq<(Seq<char>, bool)>,
    i: int,
)
    requires
        0 <= i,
        forall|k: int| 0 <= k < results.len() ==> !(#[trigger] results[k]).1,
    ensures
        take_results(config, failures, results, i).1 is Pass,
    decreases results.len() - i,
{
    if i < results.len() {
        let next = take_result(config, failures, results[i].0, results[i].1).0;
        successes_pass(config, next, results, i + 1);
    }
}

/// A call of a tool that the agent does not have is refused, with an answer for it that
/// names the tool and every tool that there is.
pub proof fn an_unknown_tool_is_refused(
    calls: Seq<ToolCallModel>,
    names: Seq<Seq<char>>,
    k: int,
)
    requires
        0 <= k < calls.len(),
        !names.contains(calls[k].name),
    ensures
        exists|j: int|
            {
                &&& 0 <= j < rejections(calls, names).len()
                &&& (#[trigger] rejections(calls, names)[j]).0 == calls[k].id
                &&& text::contains(rejections(calls, names)[j].1, calls[k].name)
                &&& forall|n: int|
                    0 <= n < names.len() ==> text::contains(
                        rejections(calls, names)[j].1,
                        #[trigger] names[n],
                    )
            },
    decreases calls.len(),
{
    let rest = rejections(calls.drop_last(), names);
    let all = rejections(calls, names);
    if k < calls.len() - 1 {
        an_unknown_tool_is_refused(calls.drop_last(), names, k);
        let j = choose|j: int|
            {
                &&& 0 <= j < rest.len()
                &&& (#[trigger] rest[j]).0 == calls[k].id
                &&& text::contains(rest[j].1, calls[k].name)
                &&& forall|n: int|
                    0 <= n < names.len() ==> text::contains(rest[j].1, #[trigger] names[n])
            };
        assert(all[j] == rest[j]);
    } else {
        let tool = calls[k].name;
        let told = unknown_tool(tool, names);
        let head = "Tool '"@;
        let middle = "' not found. Available tools: "@;
        let list = text::join(names, ", "@);
        assert(told =~= head + (tool + (middle + list)));
        assert(text::occurs_at(tool, tool, 0)) by {
            assert(tool.subrange(0, tool.len() as int) =~= tool);
        }
        text::a_part_stands_in_a_longer_text(head, tool, middle + list, tool);
        assert(told =~= (head + tool + middle) + list);
        assert forall|n: int| 0 <= n < names.len() implies text::contains(
            told,
            #[trigger] names[n],
        ) by {
            text::parts_stand_in_a_join(names, ", "@, n);
            text::a_part_stands_in_a_longer_text(
                head + tool + middle,
                list,
                Seq::empty(),
                names[n],
            );
        }
        assert(all[all.len() - 1] == (calls[k].id, told));
    }
}

/// Only calls of tools that the agent does not have are refused.
pub proof fn only_unknown_tools_are_refused(
    calls: Seq<ToolCallModel>,
    names: Seq<Seq<char>>,
    j: int,
)
    requires
        0 <= j < rejections(calls, names).len(),
    ensures
        exists|k: int|
            0 <= k < calls.len() && (#[trigger] calls[k]).id == rejections(calls, names)[j].0
                && !names.contains(calls[k].name),
    decreases calls.len(),
{
    let rest = rejections(calls.drop_last(), names);
    if j < rest.len() {
        only_unknown_tools_are_refused(calls.drop_last(), names, j);
        let k = choose|k: int|
            0 <= k < calls.drop_last().len() && (#[trigger] calls.drop_last()[k]).id == rest[j].0
                && !names.contains(calls.drop_last()[k].name);
        assert(calls[k] == calls.drop_last()[k]);
    } else {
        assert(!names.contains(calls[calls.len() - 1].name));
    }
}

/// A call is left out as a repeat only where an earlier one has the same name and the same
/// arguments; the first of its kind is always made.
pub proof fn only_repeats_are_left_out(calls: Seq<ToolCallModel>, k: int)
    requires
        0 <= k < calls.len(),
        forall|j: int|
            0 <= j < k ==> !((#[trigger] calls[j]).name == calls[k].name && equal::same_json(
                calls[j].arguments,
                calls[k].arguments,
            )),
    ensures
        without_repeats(calls).contains(calls[k]),
    decreases calls.len(),
{
    let rest = without_repeats(calls.drop_last());
    if k < calls.len() - 1 {
        assert(calls.drop_last()[k] == calls[k]);
        only_repeats_are_left_out(calls.drop_last(), k);
        let i = choose|i: int| 0 <= i < rest.len() && rest[i] == calls[k];
        assert(without_repeats(calls)[i] == calls[k]);
    } else {
        if is_repeat(rest, calls[k]) {
            let i = choose|i: int| 0 <= i < rest.len() && same_call(#[trigger] rest[i], calls[k]);
            kept_was_there(calls.drop_last(), i);
            let j = choose|j: int|
                0 <= j < calls.drop_last().len() && calls.drop_last()[j] == rest[i];
            assert(calls[j] == rest[i]);
        }
        let all = without_repeats(calls);
        assert(all[all.len() - 1] == calls[k]);
    }
}

/// A call that is left when repeats are left out was there.
proof fn kept_was_there(calls: Seq<ToolCallModel>, i: int)
    requires
        0 <= i < without_repeats(calls).len(),
    ensures
        exists|k: int| 0 <= k < calls.len() && calls[k] == without_repeats(calls)[i],
    decreases calls.len(),
{
    let rest = without_repeats(calls.drop_last());
    if i < rest.len() {
        kept_was_there(calls.drop_last(), i);
        let k = choose|k: int|
            0 <= k < calls.drop_last().len() && calls.drop_last()[k] == rest[i];
        assert(calls[k] == rest[i]);
    } else {
        assert(calls[calls.len() - 1] == without_repeats(calls)[i]);
    }
}

/// Of two calls with the same name and arguments only the first is made.
pub proof fn a_repeat_is_left_out(calls: Seq<ToolCallModel>, i: int, j: int)
    requires
        0 <= i < j < without_repeats(calls).len(),
        without_repeats(calls)[i].name == without_repeats(calls)[j].name,
    ensures
        !equal::same_json(
            without_repeats(calls)[i].arguments,
            without_repeats(calls)[j].arguments,
        ),
{
    repeats_are_made_once(calls);
    let kept = without_repeats(calls);
    assert(!same_call(kept[i], kept[j]));
}

/// Failing is part of the work of a shell and of running code; a failure of any other tool
/// counts, and one more failure follows from it.
pub proof fn which_failures_count(config: GuardrailConfig, failures: Failures, tool: Seq<char>)
    ensures
        tool == "terminal"@ || tool == "run_shell"@ || tool == "execute_code"@ ==> take_result(
            config,
            failures,
            tool,
            true,
        ) == (failures, VerdictModel::Pass),
        tool != "terminal"@ && tool != "run_shell"@ && tool != "execute_code"@ ==> ({
            let (next, verdict) = take_result(config, failures, tool, true);
            &&& failures_of(next, tool) == failures_of(failures, tool) + 1
            &&& verdict is Halt == (failures_of(failures, tool) + 1
                >= config.max_consecutive_failures)
        }),
{
}

/// Writing, patching, running something and managing processes and skills are progress:
/// where they succeed, no failure of any tool counts any longer. The success of another tool
/// ends its own series alone.
pub proof fn what_is_progress(
    config: GuardrailConfig,
    failures: Failures,
    tool: Seq<char>,
    other: Seq<char>,
)
    requires
        other != tool,
    ensures
        ({
            let next = take_result(config, failures, tool, false).0;
            let progress = tool == "write_file"@ || tool == "patch"@ || tool == "terminal"@ || tool
                == "run_shell"@ || tool == "execute_code"@ || tool == "process_manage"@ || tool
                == "skill_manage"@;
            &&& failures_of(next, tool) == 0
            &&& progress ==> failures_of(next, other) == 0
            &&& !progress ==> failures_of(next, other) == failures_of(failures, other)
        }),
{
}

/// Only calls that read something are held to be repeats; every other call passes, within its
/// budget, however often it is made.
pub proof fn which_calls_are_repeats(config: GuardrailConfig, log: CallLog, call: ToolCallModel)
    requires
        call.name != "web_search"@,
        call.name != "spawn_agent"@,
    ensures
        ({
            let (next, verdict) = check_call(config, log, call);
            let reads = call.name == "read_file"@ || call.name == "list_dir"@ || call.name
                == "search_files"@ || call.name == "web_extract"@ || call.name == "http_get"@
                || call.name == "todo_list"@ || call.name == "skills_list"@ || call.name
                == "skill_view"@ || call.name == "echo"@;
            &&& !reads ==> verdict is Pass && next.window == log.window
            &&& reads && config.loop_window > 0 ==> next.window.len() > 0 && next.window.last().0
                == call.name
            &&& next.web_searches == log.web_searches
            &&& next.subagents == log.subagents
        }),
{
    reveal_strlit("read_file");
    reveal_strlit("list_dir");
    reveal_strlit("search_files");
    reveal_strlit("web_search");
    reveal_strlit("web_extract");
    reveal_strlit("http_get");
    reveal_strlit("todo_list");
    reveal_strlit("skills_list");
    reveal_strlit("skill_view");
    reveal_strlit("echo");
    reveal_strlit("spawn_agent");
    assert("read_file"@.len() == 9);
    assert("list_dir"@.len() == 8);
    assert("search_files"@.len() == 12);
    assert("web_search"@.len() == 10);
    assert("web_extract"@.len() == 11);
    assert("http_get"@.len() == 8);
    assert("todo_list"@.len() == 9);
    assert("skills_list"@.len() == 11);
    assert("skill_view"@.len() == 10);
    assert("echo"@.len() == 4);
    assert("spawn_agent"@.len() == 11);
    assert("http_get"@[0] == 'h');
    assert("list_dir"@[0] == 'l');
    assert("read_file"@[0] == 'r');
    assert("skill_view"@[0] == 's');
    assert("skills_list"@[0] == 's');
    assert("skills_list"@[1] == 'k');
    assert("spawn_agent"@[0] == 's');
    assert("spawn_agent"@[1] == 'p');
    assert("todo_list"@[0] == 't');
    assert("web_extract"@[0] == 'w');
    assert("web_search"@[0] == 'w');
    let all = log.window.push(mark_of(call));
    assert(all.last() == mark_of(call));
}

/// A search and a sub-agent each use up their budget: one more than it allows is refused, and
/// the refusal names what was asked for too often.
pub proof fn budgets_are_used_up(config: GuardrailConfig, log: CallLog, call: ToolCallModel)
    ensures
        ({
            let (next, verdict) = check_call(config, log, call);
            &&& call.name == "web_search"@ ==> {
                &&& next.web_searches == log.web_searches + 1
                &&& next.subagents == log.subagents
                &&& log.web_searches >= config.max_web_searches ==> (verdict matches
                    VerdictModel::Halt(m) && text::contains(m, "web_search"@))
            }
            &&& call.name == "spawn_agent"@ ==> {
                &&& next.subagents == log.subagents + 1
                &&& next.web_searches == log.web_searches
                &&& log.subagents >= config.max_subagents ==> (verdict matches VerdictModel::Halt(
                    m,
                ) && text::contains(m, "spawn_agent"@))
                &&& log.subagents < config.max_subagents ==> verdict is Pass
            }
        }),
{
    broadcast use text::group_parts;

    reveal_strlit("read_file");
    reveal_strlit("list_dir");
    reveal_strlit("search_files");
    reveal_strlit("web_search");
    reveal_strlit("web_extract");
    reveal_strlit("http_get");
    reveal_strlit("todo_list");
    reveal_strlit("skills_list");
    reveal_strlit("skill_view");
    reveal_strlit("echo");
    reveal_strlit("spawn_agent");
    assert("read_file"@.len() == 9);
    assert("list_dir"@.len() == 8);
    assert("search_files"@.len() == 12);
    assert("web_search"@.len() == 10);
    assert("web_extract"@.len() == 11);
    assert("http_get"@.len() == 8);
    assert("todo_list"@.len() == 9);
    assert("skills_list"@.len() == 11);
    assert("skill_view"@.len() == 10);
    assert("echo"@.len() == 4);
    assert("spawn_agent"@.len() == 11);
    assert("http_get"@[0] == 'h');
    assert("list_dir"@[0] == 'l');
    assert("read_file"@[0] == 'r');
    assert("skill_view"@[0] == 's');
    assert("skills_list"@[0] == 's');
    assert("skills_list"@[1] == 'k');
    assert("spawn_agent"@[0] == 's');
    assert("spawn_agent"@[1] == 'p');
    assert("todo_list"@[0] == 't');
    assert("web_extract"@[0] == 'w');
    assert("web_search"@[0] == 'w');
    let (_, verdict) = check_call(config, log, call);
    if let VerdictModel::Halt(m) = verdict {
        if call.name == "web_search"@ && log.web_searches >= config.max_web_searches {
            assert(text::contains(m, "web_search"@));
        }
        if call.name == "spawn_agent"@ {
            assert(text::contains(m, "spawn_agent"@));
        }
    }
}

/// So many failures of a tool in a row stop the run, be they told one by one or together.
pub proof fn failures_in_a_row_stop_the_run(
    config: GuardrailConfig,
    failures: Failures,
    tool: Seq<char>,
    results: Seq<(Seq<char>, bool)>,
    i: int,
)
    requires
        tool != "terminal"@ && tool != "run_shell"@ && tool != "execute_code"@,
        0 <= i < results.len(),
        forall|j: int| i <= j < results.len() ==> #[trigger] results[j] == (tool, true),
        failures_of(failures, tool) + (results.len() - i) >= config.max_consecutive_failures,
    ensures
        take_results(config, failures, results, i).1 matches VerdictModel::Halt(m)
            && text::contains(m, tool),
    decreases results.len() - i,
{
    broadcast use text::group_parts;

    assert(results[i] == (tool, true));
    let (next, verdict) = take_result(config, failures, tool, true);
    if verdict is Pass {
        failures_in_a_row_stop_the_run(config, next, tool, results, i + 1);
    } else {
        let count = failures_of(failures, tool) + 1;
        let m = verdict->Halt_0;
        assert(verdict == failing(tool, count));
        assert(text::contains(m, tool));
    }
}

/// What comes behind a failure that does not stop the run is still looked at, with that
/// failure counted.
pub proof fn a_single_failure_is_counted(
    config: GuardrailConfig,
    failures: Failures,
    tool: Seq<char>,
    other: Seq<char>,
)
    requires
        tool != "terminal"@ && tool != "run_shell"@ && tool != "execute_code"@,
        other != tool,
        failures_of(failures, tool) + 1 < config.max_consecutive_failures,
    ensures
        ({
            let (next, verdict) = take_results(config, failures, seq![(tool, true)], 0);
            &&& verdict is Pass
            &&& failures_of(next, tool) == failures_of(failures, tool) + 1
            &&& failures_of(next, other) == failures_of(failures, other)
        }),
{
    reveal_with_fuel(take_results, 2);
}

} // verus!

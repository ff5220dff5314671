//! Making room by shortening what tools have returned.
use vstd::prelude::*;

use crate::json::{Json, JsonModel};
use crate::llm::{ChatMessage, MessageModel, Role, ToolCallModel};
use crate::seqs;
use crate::text;
use crate::text::{
    chars_of, cut, decimal_text, find_char, find_chars, find_chars_from, same_text, string_of,
    take_text, text_starts_with,
};

verus! {

broadcast use {crate::seqs::group_views, vstd::std_specs::hash::group_hash_axioms};

/// What takes the place of a large result in the tail.
pub const PRUNED_TOOL_PLACEHOLDER: &'static str = "[Old tool output cleared to save context space]";

/// What takes the place of a result that a later one repeats.
pub const DUPLICATE_TOOL_PLACEHOLDER: &'static str =
    "[Duplicate tool output — same content as a more recent call]";

/// How the mark of a cleared skill begins.
pub const SKILL_PRUNED_MARKER_PREFIX: &'static str = "[SKILL_PRUNED:";

/// The length from which the result of viewing a skill is cleared.
pub const SKILL_VIEW_PRUNE_MIN_CHARS: usize = 5000;

/// How many marks of cleared skills are put back into a summary at most.
pub const MAX_PRUNED_SKILL_MARKERS: usize = 20;

/// Whether a result has already been replaced by one of the placeholders.
pub open spec fn is_placeholder(s: Seq<char>) -> bool {
    ||| text::starts_with(s, "[Old tool output"@)
    ||| text::starts_with(s, "[Duplicate tool output"@)
    ||| text::starts_with(s, "[SKILL_PRUNED:"@)
}

/// Whether a result has already been replaced by one of the placeholders.
pub fn is_tool_placeholder(content: &str) -> (r: bool)
    ensures
        r == is_placeholder(content@),
{
    text_starts_with(content, "[Old tool output") || text_starts_with(
        content,
        "[Duplicate tool output",
    ) || text_starts_with(content, "[SKILL_PRUNED:")
}

/// Whether the result of a tool that changes files says that the change was made.
pub open spec fn mutation_landed(tool_name: Seq<char>, result: JsonModel) -> bool {
    &&& result.get("error"@) is None
    &&& {
        ||| tool_name == "write_file"@ && result.get("bytes_written"@) is Some
        ||| tool_name == "patch"@ && result.at("success"@).as_bool() == Some(true)
    }
}

/// Whether the result of a tool that changes files says that the change was made.
pub fn file_mutation_landed(tool_name: &str, result: &Json) -> (r: bool)
    ensures
        r == mutation_landed(tool_name@, result@),
{
    proof {
        reveal_strlit("write_file");
        reveal_strlit("patch");
        assert("write_file"@.len() != "patch"@.len());
    }
    if result.get("error").is_some() {
        return false;
    }
    if same_text(tool_name, "write_file") {
        result.get("bytes_written").is_some()
    } else if same_text(tool_name, "patch") {
        match result.get("success") {
            Some(v) => match v.as_bool() {
                Some(b) => b,
                None => false,
            },
            None => false,
        }
    } else {
        false
    }
}

// ---------- cutting long results ----------

/// Whether a message is a result longer than `max` characters.
pub open spec fn is_long_output(m: MessageModel, max: int) -> bool {
    m.role == Role::Tool && m.content is Some && m.text().len() > max
}

/// A long result cut to its first `max` characters, with a note of its length.
pub open spec fn cut_output(m: MessageModel, max: int) -> MessageModel {
    if is_long_output(m, max) {
        m.with_content(
            Some(
                m.text().take(max) + "\n... [truncated, original "@ + text::decimal(
                    m.text().len(),
                ) + " chars]"@,
            ),
        )
    } else {
        m
    }
}

/// How many messages are results longer than `max` characters.
pub open spec fn long_outputs(msgs: Seq<MessageModel>, max: int) -> int {
    seqs::count_below(|i: int| is_long_output(msgs[i], max), msgs.len() as int)
}

/// Cuts every long result; says how many there were.
pub fn prune_tool_outputs(
    messages: &mut Vec<ChatMessage>,
    max_tool_output_chars: usize,
) -> (pruned: usize)
    ensures
        final(messages).deep_view() == old(messages).deep_view().map_values(
            |m: MessageModel| cut_output(m, max_tool_output_chars as int),
        ),
        pruned == long_outputs(old(messages).deep_view(), max_tool_output_chars as int),
        pruned <= old(messages)@.len(),
{
    let ghost before = messages.deep_view();
    let ghost max = max_tool_output_chars as int;
    let ghost long = |i: int| is_long_output(before[i], max);
    let mut pruned: usize = 0;
    let mut i: usize = 0;
    while i < messages.len()
        invariant
            i <= messages@.len(),
            max == max_tool_output_chars,
            before.len() == messages@.len(),
            long == (|i: int| is_long_output(before[i], max)),
            forall|j: int| 0 <= j < i ==> (#[trigger] messages@[j])@ == cut_output(before[j], max),
            forall|j: int| i <= j < messages@.len() ==> (#[trigger] messages@[j])@ == before[j],
            pruned == seqs::count_below(long, i as int),
            pruned <= i,
        decreases messages@.len() - i,
    {
        assert(messages@[i as int]@ == before[i as int]);
        if messages[i].role == Role::Tool {
            if let Some(content) = &messages[i].content {
                let n: usize = content.as_str().unicode_len();
                if n > max_tool_output_chars {
                    let mut cut_text = take_text(content.as_str(), max_tool_output_chars);
                    cut_text.append("\n... [truncated, original ");
                    cut_text.append(decimal_text(n as u64).as_str());
                    cut_text.append(" chars]");
                    let mut m = messages[i].clone();
                    m.content = Some(cut_text);
                    messages.set(i, m);
                    pruned += 1;
                }
            }
        }
        i += 1;
    }
    assert(messages.deep_view() =~= before.map_values(|m: MessageModel| cut_output(m, max)));
    pruned
}

// ---------- results that repeat ----------

/// Whether a message is a result that has not been replaced.
pub open spec fn is_live_output(m: MessageModel) -> bool {
    m.role == Role::Tool && m.content is Some && !is_placeholder(m.text())
}

/// Whether a later result has the same text as the one at `i`.
pub open spec fn is_repeated(msgs: Seq<MessageModel>, i: int) -> bool {
    &&& is_live_output(msgs[i])
    &&& exists|j: int|
        i < j < msgs.len() && is_live_output(#[trigger] msgs[j]) && msgs[j].text()
            == msgs[i].text()
}

/// The message at `i` once results that are repeated later are replaced.
pub open spec fn deduped(msgs: Seq<MessageModel>, i: int) -> MessageModel {
    if is_repeated(msgs, i) {
        msgs[i].with_content(Some(DUPLICATE_TOOL_PLACEHOLDER@))
    } else {
        msgs[i]
    }
}

/// How many results a later one repeats.
pub open spec fn repeated_outputs(msgs: Seq<MessageModel>) -> int {
    seqs::count_below(|i: int| is_repeated(msgs, i), msgs.len() as int)
}

/// Replaces every result that a later one repeats; says how many there were.
pub fn dedupe_tool_results(messages: &mut Vec<ChatMessage>) -> (count: usize)
    ensures
        final(messages).deep_view() == Seq::new(
            old(messages)@.len(),
            |i: int| deduped(old(messages).deep_view(), i),
        ),
        count == repeated_outputs(old(messages).deep_view()),
        count <= old(messages)@.len(),
{
    let ghost before = messages.deep_view();
    let ghost repeated = |i: int| is_repeated(before, i);
    let ghost n = messages@.len() as int;
    let mut seen: Vec<String> = Vec::new();
    let mut count: usize = 0;
    let mut i: usize = messages.len();
    while i > 0
        invariant
            i <= messages@.len() == n,
            before.len() == n,
            repeated == (|i: int| is_repeated(before, i)),
            forall|j: int| 0 <= j < i ==> (#[trigger] messages@[j])@ == before[j],
            forall|j: int| i <= j < n ==> (#[trigger] messages@[j])@ == deduped(before, j),
            forall|t: Seq<char>|
                seen.deep_view().contains(t) <==> exists|j: int|
                    i <= j < n && is_live_output(#[trigger] before[j]) && before[j].text() == t,
            count + seqs::count_below(repeated, i as int) == seqs::count_below(repeated, n),
            count <= n - i,
        decreases i,
    {
        i -= 1;
        assert(messages@[i as int]@ == before[i as int]);
        let mut live: Option<String> = None;
        if messages[i].role == Role::Tool {
            if let Some(content) = &messages[i].content {
                if !is_tool_placeholder(content.as_str()) {
                    live = Some(content.clone());
                }
            }
        }
        if let Some(content) = live {
            let ghost texts = seen.deep_view();
            if among(seen.as_slice(), content.as_str()) {
                assert(is_repeated(before, i as int));
                let mut m = messages[i].clone();
                m.content = Some(String::from_str(DUPLICATE_TOOL_PLACEHOLDER));
                messages.set(i, m);
                count += 1;
            } else {
                assert(!is_repeated(before, i as int));
                seen.push(content);
                assert(seen.deep_view() =~= texts.push(content@));
            }
            assert forall|t: Seq<char>|
                seen.deep_view().contains(t) <==> exists|j: int|
                    i <= j < n && is_live_output(#[trigger] before[j]) && before[j].text()
                        == t by {
                assert(is_live_output(before[i as int]) && before[i as int].text() == content@);
                if texts.contains(t) {
                    let k = choose|k: int| 0 <= k < texts.len() && texts[k] == t;
                    assert(seen.deep_view()[k] == t);
                }
                if t == content@ && !texts.contains(t) {
                    assert(seen.deep_view()[texts.len() as int] == t);
                }
            }
        } else {
            assert(!is_live_output(before[i as int]));
        }
    }
    assert(messages.deep_view() =~= Seq::new(n as nat, |i: int| deduped(before, i)));
    count
}

/// Of two results with the same text the earlier one is always replaced, and one whose
/// text no later result has never is.
pub proof fn repeated_text_is_replaced(msgs: Seq<MessageModel>, i: int, j: int)
    requires
        0 <= i < j < msgs.len(),
        is_live_output(msgs[i]),
        is_live_output(msgs[j]),
        msgs[i].text() == msgs[j].text(),
    ensures
        deduped(msgs, i).text() == DUPLICATE_TOOL_PLACEHOLDER@,
        (forall|k: int|
            j < k < msgs.len() && is_live_output(#[trigger] msgs[k]) ==> msgs[k].text()
                != msgs[j].text()) ==> deduped(msgs, j) == msgs[j],
{
    assert(is_live_output(msgs[j]));
}

// ---------- marks of cleared skills ----------

/// The mark that takes the place of a skill.
pub open spec fn skill_marker(name: Seq<char>) -> Seq<char> {
    SKILL_PRUNED_MARKER_PREFIX@
        + " content lost in compression; reload with skill_view(name='"@ + name + "')]"@
}

/// The mark that takes the place of a skill.
pub fn skill_pruned_marker(skill_name: &str) -> (r: String)
    ensures
        r@ == skill_marker(skill_name@),
{
    let mut s = String::from_str(SKILL_PRUNED_MARKER_PREFIX);
    s.append(" content lost in compression; reload with skill_view(name='");
    s.append(skill_name);
    s.append("')]");
    s
}

/// The quoted name that follows the beginning of a mark.
pub open spec fn name_after(after: Seq<char>) -> Option<Seq<char>> {
    match text::find(after, "name='"@) {
        None => None,
        Some(k) => {
            let area = after.skip(k + "name='"@.len());
            match text::first_of(area, '\'') {
                None => None,
                Some(e) => Some(area.take(e)),
            }
        },
    }
}

/// The names of the marks from `pos` on.
pub open spec fn marked_names(s: Seq<char>, pos: int) -> Seq<Seq<char>>
    decreases s.len() - pos,
    when pos >= 0
{
    match text::find_from(s, SKILL_PRUNED_MARKER_PREFIX@, pos) {
        None => Seq::empty(),
        Some(k) => {
            proof {
                text::find_from_is_first(s, SKILL_PRUNED_MARKER_PREFIX@, pos);
                reveal_strlit("[SKILL_PRUNED:");
            }
            let rest = marked_names(s, k + SKILL_PRUNED_MARKER_PREFIX@.len());
            match name_after(s.skip(k + SKILL_PRUNED_MARKER_PREFIX@.len())) {
                Some(name) => seq![name] + rest,
                None => rest,
            }
        },
    }
}

/// The names of the skills whose marks a text holds, each once, in order.
pub open spec fn pruned_skill_names(s: Seq<char>) -> Seq<Seq<char>> {
    seqs::distinct(marked_names(s, 0))
}

/// Whether a text is among others.
pub fn among(names: &[String], name: &str) -> (r: bool)
    ensures
        r == names.deep_view().contains(name@),
{
    let mut i: usize = 0;
    while i < names.len()
        invariant
            i <= names@.len(),
            forall|j: int| 0 <= j < i ==> names.deep_view()[j] != name@,
        decreases names@.len() - i,
    {
        if same_text(names[i].as_str(), name) {
            assert(names.deep_view()[i as int] == name@);
            return true;
        }
        i += 1;
    }
    false
}

/// The quoted name that follows the beginning of a mark.
fn find_name_after(after: &[char]) -> (r: Option<String>)
    ensures
        r.deep_view() == name_after(after@),
{
    let key = chars_of("name='");
    let n: usize = after.len();
    match find_chars(after, key.as_slice()) {
        None => None,
        Some(k) => {
            let area = cut(after, k + key.len(), n);
            assert(area@ =~= after@.skip(k + "name='"@.len()));
            match find_char(area.as_slice(), '\'') {
                None => None,
                Some(e) => {
                    let name = cut(area.as_slice(), 0, e);
                    assert(name@ =~= area@.take(e as int));
                    Some(string_of(name.as_slice()))
                },
            }
        },
    }
}

/// The names of the skills whose marks a text holds, each once, in order.
pub fn extract_pruned_skill_names(content: &str) -> (r: Vec<String>)
    ensures
        r.deep_view() == pruned_skill_names(content@),
{
    let s = chars_of(content);
    let n: usize = s.len();
    let prefix = chars_of(SKILL_PRUNED_MARKER_PREFIX);
    proof {
        reveal_strlit("[SKILL_PRUNED:");
    }
    let mut names: Vec<String> = Vec::new();
    let mut pos: usize = 0;
    let ghost mut found: Seq<Seq<char>> = Seq::empty();
    assert(found + marked_names(s@, 0) =~= marked_names(s@, 0));
    loop
        invariant
            s@ == content@,
            n == s@.len(),
            prefix@ == SKILL_PRUNED_MARKER_PREFIX@,
            prefix@.len() > 0,
            pos <= s@.len(),
            names.deep_view() == seqs::distinct(found),
            found + marked_names(s@, pos as int) == marked_names(s@, 0),
        ensures
            names.deep_view() == seqs::distinct(marked_names(s@, 0)),
        decreases s@.len() - pos,
    {
        match find_chars_from(s.as_slice(), prefix.as_slice(), pos) {
            None => {
                assert(found + marked_names(s@, pos as int) =~= found);
                break;
            },
            Some(k) => {
                proof {
                    text::find_from_is_first(s@, prefix@, pos as int);
                }
                let next: usize = k + prefix.len();
                let after = cut(s.as_slice(), next, n);
                assert(after@ =~= s@.skip(next as int));
                let name = find_name_after(after.as_slice());
                let ghost rest = marked_names(s@, next as int);
                match name {
                    Some(name) => {
                        let ghost grown = found.push(name@);
                        assert(grown.drop_last() =~= found);
                        assert(grown + rest =~= found + (seq![name@] + rest));
                        if !among(names.as_slice(), name.as_str()) {
                            names.push(name);
                        }
                        proof {
                            found = grown;
                        }
                    },
                    None => {},
                }
                pos = next;
            },
        }
    }
    names
}

/// The names that are not among others.
pub open spec fn missing_names(
    names: Seq<Seq<char>>,
    existing: Seq<Seq<char>>,
) -> Seq<Seq<char>> {
    names.filter(|n: Seq<char>| !existing.contains(n))
}

/// The marks of these names, each on a line of its own.
pub open spec fn marker_lines(names: Seq<Seq<char>>) -> Seq<char>
    decreases names.len(),
{
    if names.len() == 0 {
        Seq::empty()
    } else {
        marker_lines(names.drop_last()) + skill_marker(names.last()) + "\n"@
    }
}

/// A summary with the marks of the named skills that it does not hold put back.
pub open spec fn reinjected(summary: Seq<char>, names: Seq<Seq<char>>) -> Seq<char> {
    let missing = missing_names(names, pruned_skill_names(summary));
    if missing.len() == 0 {
        summary
    } else {
        summary + "\n\n## Pruned Skills\n"@ + marker_lines(
            missing.take(
                if missing.len() <= MAX_PRUNED_SKILL_MARKERS {
                    missing.len() as int
                } else {
                    MAX_PRUNED_SKILL_MARKERS as int
                },
            ),
        )
    }
}

/// Puts the marks of the named skills that a summary does not hold back into it.
pub fn reinject_pruned_skill_markers(summary: &str, skill_names: &[String]) -> (r: String)
    ensures
        r@ == reinjected(summary@, skill_names.deep_view()),
{
    let existing = extract_pruned_skill_names(summary);
    let ghost names = skill_names.deep_view();
    let ghost keep = |n: Seq<char>| !existing.deep_view().contains(n);
    let mut missing: Vec<String> = Vec::new();
    let mut i: usize = 0;
    assert(names.take(0).filter(keep) =~= Seq::<Seq<char>>::empty());
    while i < skill_names.len()
        invariant
            i <= skill_names@.len(),
            names == skill_names.deep_view(),
            names.len() == skill_names@.len(),
            keep == (|n: Seq<char>| !existing.deep_view().contains(n)),
            missing.deep_view() == names.take(i as int).filter(keep),
        decreases skill_names@.len() - i,
    {
        proof {
            assert(names.take(i + 1).drop_last() =~= names.take(i as int));
            reveal(Seq::filter);
        }
        if !among(existing.as_slice(), skill_names[i].as_str()) {
            missing.push(skill_names[i].clone());
        }
        i += 1;
    }
    assert(names.take(i as int) =~= names);
    if missing.len() == 0 {
        return String::from_str(summary);
    }
    let mut result = String::from_str(summary);
    result.append("\n\n## Pruned Skills\n");
    let ghost all = missing.deep_view();
    let ghost start = result@;
    let mut k: usize = 0;
    assert(start + marker_lines(all.take(0)) =~= start);
    while k < missing.len() && k < MAX_PRUNED_SKILL_MARKERS
        invariant
            k <= missing@.len(),
            k <= MAX_PRUNED_SKILL_MARKERS,
            all == missing.deep_view(),
            all.len() == missing@.len(),
            result@ == start + marker_lines(all.take(k as int)),
        decreases missing@.len() - k,
    {
        result.append(skill_pruned_marker(missing[k].as_str()).as_str());
        result.append("\n");
        k += 1;
        assert(all.take(k as int).drop_last() =~= all.take(k - 1));
        assert(result@ =~= start + (marker_lines(all.take(k - 1)) + skill_marker(all[k - 1])
            + "\n"@));
    }
    result
}

// ---------- results of viewing skills ----------

/// The skill that a call views: the call has the identifier and names it.
pub open spec fn viewed_skill(call: ToolCallModel, id: Seq<char>) -> Option<Seq<char>> {
    if call.name == "skill_view"@ && call.id == id {
        call.arguments.at("name"@).as_str()
    } else {
        None
    }
}

/// The skill that the last of these calls with the identifier views.
pub open spec fn skill_in_calls(calls: Seq<ToolCallModel>, id: Seq<char>) -> Option<Seq<char>>
    decreases calls.len(),
{
    if calls.len() == 0 {
        None
    } else {
        match viewed_skill(calls.last(), id) {
            Some(name) => Some(name),
            None => skill_in_calls(calls.drop_last(), id),
        }
    }
}

/// The skill that the last call with the identifier views, in the messages of the
/// model.
pub open spec fn skill_of_call(msgs: Seq<MessageModel>, id: Seq<char>) -> Option<Seq<char>>
    decreases msgs.len(),
{
    if msgs.len() == 0 {
        None
    } else {
        match if msgs.last().role == Role::Assistant {
            skill_in_calls(msgs.last().calls(), id)
        } else {
            None
        } {
            Some(name) => Some(name),
            None => skill_of_call(msgs.drop_last(), id),
        }
    }
}

/// The skill whose large result a message is.
pub open spec fn large_skill_result(
    msgs: Seq<MessageModel>,
    m: MessageModel,
) -> Option<Seq<char>> {
    if m.role == Role::Tool && m.content is Some && m.text().len() >= SKILL_VIEW_PRUNE_MIN_CHARS
        && m.tool_call_id is Some {
        skill_of_call(msgs, m.tool_call_id->0)
    } else {
        None
    }
}

/// The message with its text replaced by a mark, where it is the large result of
/// viewing a skill.
pub open spec fn skill_cleared(msgs: Seq<MessageModel>, m: MessageModel) -> MessageModel {
    match large_skill_result(msgs, m) {
        Some(name) => m.with_content(Some(skill_marker(name))),
        None => m,
    }
}

/// The skills that are cleared among the first `n` messages, in order.
pub open spec fn cleared_skills(msgs: Seq<MessageModel>, n: int) -> Seq<Seq<char>>
    decreases n,
{
    if n <= 0 {
        Seq::empty()
    } else {
        match large_skill_result(msgs, msgs[n - 1]) {
            Some(name) => cleared_skills(msgs, n - 1).push(name),
            None => cleared_skills(msgs, n - 1),
        }
    }
}

/// The skill that the last of these calls with the identifier views.
fn find_skill_in_calls(calls: &[crate::llm::ToolCall], id: &str) -> (r: Option<String>)
    ensures
        r.deep_view() == skill_in_calls(calls.deep_view(), id@),
{
    let ghost all = calls.deep_view();
    let mut n: usize = calls.len();
    assert(all.take(n as int) =~= all);
    while n > 0
        invariant
            n <= calls@.len(),
            all == calls.deep_view(),
            all.len() == calls@.len(),
            skill_in_calls(all, id@) == skill_in_calls(all.take(n as int), id@),
        decreases n,
    {
        assert(all.take(n as int).last() == calls@[n - 1]@);
        assert(all.take(n as int).drop_last() =~= all.take(n - 1));
        let call = &calls[n - 1];
        if same_text(call.name.as_str(), "skill_view") && same_text(call.id.as_str(), id) {
            if let Some(name) = call.arguments.str_field("name") {
                return Some(String::from_str(name));
            }
        }
        n -= 1;
    }
    None
}

/// The skill that the last call with the identifier views.
fn find_skill_of_call(messages: &[ChatMessage], id: &str) -> (r: Option<String>)
    ensures
        r.deep_view() == skill_of_call(messages.deep_view(), id@),
{
    let ghost all = messages.deep_view();
    let mut n: usize = messages.len();
    assert(all.take(n as int) =~= all);
    while n > 0
        invariant
            n <= messages@.len(),
            all == messages.deep_view(),
            all.len() == messages@.len(),
            skill_of_call(all, id@) == skill_of_call(all.take(n as int), id@),
        decreases n,
    {
        assert(all.take(n as int).last() == messages@[n - 1]@);
        assert(all.take(n as int).drop_last() =~= all.take(n - 1));
        if messages[n - 1].role == Role::Assistant {
            if let Some(calls) = &messages[n - 1].tool_calls {
                if let Some(name) = find_skill_in_calls(calls.as_slice(), id) {
                    return Some(name);
                }
            }
        }
        n -= 1;
    }
    None
}

/// Replacing the text of results leaves the calls as they are.
proof fn skill_of_call_ignores_results(a: Seq<MessageModel>, b: Seq<MessageModel>, id: Seq<char>)
    requires
        a.len() == b.len(),
        forall|i: int| 0 <= i < a.len() ==> (#[trigger] a[i]).role == b[i].role,
        forall|i: int| 0 <= i < a.len() ==> (#[trigger] a[i]).calls() == b[i].calls(),
    ensures
        skill_of_call(a, id) == skill_of_call(b, id),
    decreases a.len(),
{
    if a.len() > 0 {
        assert(a.last().role == b.last().role);
        skill_of_call_ignores_results(a.drop_last(), b.drop_last(), id);
    }
}

/// Replaces every large result of viewing a skill by the mark of the skill; says how
/// many there were and which skills.
pub fn prune_large_skill_results(messages: &mut Vec<ChatMessage>) -> (r: (usize, Vec<String>))
    ensures
        final(messages).deep_view() == old(messages).deep_view().map_values(
            |m: MessageModel| skill_cleared(old(messages).deep_view(), m),
        ),
        r.1.deep_view() == cleared_skills(
            old(messages).deep_view(),
            old(messages)@.len() as int,
        ),
        r.0 == r.1@.len(),
        r.0 <= old(messages)@.len(),
{
    let ghost before = messages.deep_view();
    let ghost n = messages@.len() as int;
    let mut names: Vec<String> = Vec::new();
    let mut i: usize = 0;
    while i < messages.len()
        invariant
            i <= messages@.len() == n,
            before.len() == n,
            forall|j: int|
                0 <= j < i ==> (#[trigger] messages@[j])@ == skill_cleared(before, before[j]),
            forall|j: int| i <= j < n ==> (#[trigger] messages@[j])@ == before[j],
            names.deep_view() == cleared_skills(before, i as int),
            names@.len() <= i,
        decreases messages@.len() - i,
    {
        assert(messages@[i as int]@ == before[i as int]);
        let mut found: Option<String> = None;
        if messages[i].role == Role::Tool {
            if let Some(content) = &messages[i].content {
                if content.as_str().unicode_len() >= SKILL_VIEW_PRUNE_MIN_CHARS {
                    if let Some(id) = &messages[i].tool_call_id {
                        found = find_skill_of_call(messages.as_slice(), id.as_str());
                        proof {
                            let now = messages.deep_view();
                            assert forall|j: int| 0 <= j < n implies (#[trigger] now[j]).role
                                == before[j].role by {
                                assert(now[j] == messages@[j]@);
                            }
                            assert forall|j: int| 0 <= j < n implies (#[trigger] now[j]).calls()
                                == before[j].calls() by {
                                assert(now[j] == messages@[j]@);
                            }
                            skill_of_call_ignores_results(now, before, id@);
                        }
                    }
                }
            }
        }
        assert(found.deep_view() == large_skill_result(before, before[i as int]));
        if let Some(name) = found {
            let mut m = messages[i].clone();
            m.content = Some(skill_pruned_marker(name.as_str()));
            messages.set(i, m);
            names.push(name);
        }
        i += 1;
    }
    assert(messages.deep_view() =~= before.map_values(
        |m: MessageModel| skill_cleared(before, m),
    ));
    let count: usize = names.len();
    (count, names)
}

// ---------- results in the tail ----------

/// Whether a message is a live result of more than `min` characters.
pub open spec fn is_large_output(m: MessageModel, min: int) -> bool {
    is_live_output(m) && m.text().len() > min
}

/// The text that takes the place of a large result in the tail.
pub open spec fn demoted_text(len: nat) -> Seq<char> {
    PRUNED_TOOL_PLACEHOLDER@ + " (original "@ + text::decimal(len) + " chars)"@
}

/// The message at `i` once the large results from `tail_start` on are replaced.
pub open spec fn demoted(
    msgs: Seq<MessageModel>,
    tail_start: int,
    min: int,
    i: int,
) -> MessageModel {
    if i >= tail_start && is_large_output(msgs[i], min) {
        msgs[i].with_content(Some(demoted_text(msgs[i].text().len())))
    } else {
        msgs[i]
    }
}

/// How many live results of more than `min` characters there are from `tail_start` on.
pub open spec fn large_outputs(msgs: Seq<MessageModel>, tail_start: int, min: int) -> int {
    seqs::count_below(
        |i: int| i >= tail_start && is_large_output(msgs[i], min),
        msgs.len() as int,
    )
}

/// Replaces the large results from `tail_start` on; says how many there were.
pub fn pressure_demote_tail(
    messages: &mut Vec<ChatMessage>,
    tail_start: usize,
    min_chars: usize,
) -> (count: usize)
    ensures
        final(messages).deep_view() == Seq::new(
            old(messages)@.len(),
            |i: int|
                demoted(old(messages).deep_view(), tail_start as int, min_chars as int, i),
        ),
        count == large_outputs(old(messages).deep_view(), tail_start as int, min_chars as int),
        count <= old(messages)@.len(),
{
    let ghost before = messages.deep_view();
    let ghost n = messages@.len() as int;
    let ghost tail = tail_start as int;
    let ghost min = min_chars as int;
    let ghost large = |i: int| i >= tail && is_large_output(before[i], min);
    let mut count: usize = 0;
    let mut i: usize = 0;
    while i < messages.len()
        invariant
            i <= messages@.len() == n,
            before.len() == n,
            tail == tail_start,
            min == min_chars,
            large == (|i: int| i >= tail && is_large_output(before[i], min)),
            forall|j: int|
                0 <= j < i ==> (#[trigger] messages@[j])@ == demoted(
                    before,
                    tail_start as int,
                    min_chars as int,
                    j,
                ),
            forall|j: int| i <= j < n ==> (#[trigger] messages@[j])@ == before[j],
            count == seqs::count_below(large, i as int),
            count <= i,
        decreases messages@.len() - i,
    {
        assert(messages@[i as int]@ == before[i as int]);
        if i >= tail_start && messages[i].role == Role::Tool {
            if let Some(content) = &messages[i].content {
                let len: usize = content.as_str().unicode_len();
                if !is_tool_placeholder(content.as_str()) && len > min_chars {
                    let mut s = String::from_str(PRUNED_TOOL_PLACEHOLDER);
                    s.append(" (original ");
                    s.append(decimal_text(len as u64).as_str());
                    s.append(" chars)");
                    let mut m = messages[i].clone();
                    m.content = Some(s);
                    messages.set(i, m);
                    count += 1;
                }
            }
        }
        i += 1;
    }
    assert(messages.deep_view() =~= Seq::new(
        n as nat,
        |i: int| demoted(before, tail_start as int, min_chars as int, i),
    ));
    count
}

// ---------- what marks give back ----------

/// The text between the beginning of a mark and the name in it.
pub open spec fn marker_middle() -> Seq<char> {
    " content lost in compression; reload with skill_view(name='"@
}

/// The only quote of that text is its last character, behind `name=`.
proof fn marker_middle_shape()
    ensures
        marker_middle().len() == 59,
        forall|i: int| 0 <= i < 58 ==> marker_middle()[i] != '\'',
        text::occurs_at(marker_middle(), "name='"@, 53),
        "name='"@.len() == 6,
        "name='"@[5] == '\'',
{
    reveal_strlit(" content lost in compression; reload with skill_view(name='");
    reveal_strlit("name='");
    let mid = marker_middle();
    assert forall|i: int| 0 <= i < 58 implies mid[i] != '\'' by {
        assert(
            i == 0 || i == 1 || i == 2 || i == 3 || i == 4 || i == 5 || i == 6 || i == 7
            || i == 8 || i == 9 || i == 10 || i == 11 || i == 12 || i == 13 || i == 14
            || i == 15 || i == 16 || i == 17 || i == 18 || i == 19 || i == 20 || i == 21
            || i == 22 || i == 23 || i == 24 || i == 25 || i == 26 || i == 27 || i == 28
            || i == 29 || i == 30 || i == 31 || i == 32 || i == 33 || i == 34 || i == 35
            || i == 36 || i == 37 || i == 38 || i == 39 || i == 40 || i == 41 || i == 42
            || i == 43 || i == 44 || i == 45 || i == 46 || i == 47 || i == 48 || i == 49
            || i == 50 || i == 51 || i == 52 || i == 53 || i == 54 || i == 55 || i == 56
            || i == 57
        );
    }
    assert(mid.subrange(53, 59) =~= "name='"@);
}

/// The beginning of a mark does not overlap itself.
proof fn prefix_shape(d: int)
    requires
        0 < d < 14,
    ensures
        SKILL_PRUNED_MARKER_PREFIX@.len() == 14,
        SKILL_PRUNED_MARKER_PREFIX@[d] != SKILL_PRUNED_MARKER_PREFIX@[0],
{
    reveal_strlit("[SKILL_PRUNED:");
    assert(
        d == 1 || d == 2 || d == 3 || d == 4 || d == 5 || d == 6 || d == 7 || d == 8
        || d == 9 || d == 10 || d == 11 || d == 12 || d == 13
    );
}

/// Behind the beginning of a mark stands the name that the mark was made of.
proof fn name_after_marker(name: Seq<char>, rest: Seq<char>)
    requires
        forall|i: int| 0 <= i < name.len() ==> name[i] != '\'',
    ensures
        name_after(marker_middle() + name + "')]"@ + rest) == Some(name),
{
    marker_middle_shape();
    reveal_strlit("')]");
    let mid = marker_middle();
    let key = "name='"@;
    let after = mid + name + "')]"@ + rest;
    text::find_from_is_first(after, key, 0);
    assert(after.subrange(53, 59) =~= mid.subrange(53, 59));
    assert(text::occurs_at(after, key, 53));
    let k = text::find(after, key)->0;
    assert(k <= 53);
    if k < 53 {
        assert(after.subrange(k, k + 6)[5] == '\'');
        assert(mid[k + 5] == after[k + 5]);
        assert(false);
    }
    let area = after.skip(59);
    assert(area =~= name + "')]"@ + rest);
    text::find_from_is_first(area, seq!['\''], 0);
    assert(area.subrange(name.len() as int, name.len() as int + 1) =~= seq!['\'']);
    assert(text::occurs_at(area, seq!['\''], name.len() as int));
    let e = text::first_of(area, '\'')->0;
    if e < name.len() {
        assert(area.subrange(e, e + 1)[0] == '\'');
        assert(area[e] == name[e]);
        assert(false);
    }
    assert(area.take(e) =~= name);
}

/// Every mark of a text is read.
proof fn marks_are_read(s: Seq<char>, pos: int, k: int)
    requires
        0 <= pos <= k,
        text::occurs_at(s, SKILL_PRUNED_MARKER_PREFIX@, k),
        name_after(s.skip(k + SKILL_PRUNED_MARKER_PREFIX@.len())) is Some,
    ensures
        marked_names(s, pos).contains(
            name_after(s.skip(k + SKILL_PRUNED_MARKER_PREFIX@.len()))->0,
        ),
    decreases s.len() - pos,
{
    let prefix = SKILL_PRUNED_MARKER_PREFIX@;
    prefix_shape(1);
    text::find_from_is_first(s, prefix, pos);
    let m = text::find_from(s, prefix, pos)->0;
    assert(m <= k);
    let rest = marked_names(s, m + prefix.len());
    if m == k {
        let name = name_after(s.skip(k + prefix.len()))->0;
        assert((seq![name] + rest)[0] == name);
    } else {
        if k < m + prefix.len() {
            prefix_shape(k - m);
            assert(s.subrange(m, m + prefix.len())[k - m] == prefix[k - m]);
            assert(s.subrange(k, k + prefix.len())[0] == prefix[0]);
            assert(false);
        }
        marks_are_read(s, m + prefix.len(), k);
        let name = name_after(s.skip(k + prefix.len()))->0;
        let i = choose|i: int| 0 <= i < rest.len() && rest[i] == name;
        match name_after(s.skip(m + prefix.len())) {
            Some(first) => {
                assert((seq![first] + rest)[i + 1] == name);
            },
            None => {},
        }
    }
}

/// A mark within a text is read from it, where the name has no quote in it.
pub proof fn marker_is_read(before: Seq<char>, name: Seq<char>, after: Seq<char>)
    requires
        forall|i: int| 0 <= i < name.len() ==> name[i] != '\'',
    ensures
        pruned_skill_names(before + skill_marker(name) + after).contains(name),
{
    let s = before + skill_marker(name) + after;
    let prefix = SKILL_PRUNED_MARKER_PREFIX@;
    let k = before.len() as int;
    assert(s.subrange(k, k + prefix.len()) =~= prefix);
    assert(s.skip(k + prefix.len()) =~= marker_middle() + name + "')]"@ + after);
    name_after_marker(name, after);
    marks_are_read(s, 0, k);
    seqs::distinct_keeps(marked_names(s, 0));
}

/// A text that ends within the first quote behind it gives no name.
proof fn no_name_without_quotes(s: Seq<char>, pos: int)
    requires
        0 <= pos <= s.len(),
        s.len() >= 3,
        s.skip(s.len() - 3) == "')]"@,
        forall|i: int| pos <= i < s.len() - 3 ==> s[i] != '\'',
    ensures
        marked_names(s, pos) == Seq::<Seq<char>>::empty(),
    decreases s.len() - pos,
{
    let prefix = SKILL_PRUNED_MARKER_PREFIX@;
    prefix_shape(1);
    marker_middle_shape();
    reveal_strlit("')]");
    text::find_from_is_first(s, prefix, pos);
    if let Some(k) = text::find_from(s, prefix, pos) {
        let after = s.skip(k + prefix.len());
        let key = "name='"@;
        text::find_from_is_first(after, key, 0);
        if let Some(j) = text::find(after, key) {
            assert(after.subrange(j, j + 6)[5] == '\'');
            let at = k + prefix.len() + j + 5;
            assert(s[at] == after[j + 5]);
            assert(s[s.len() - 3] == s.skip(s.len() - 3)[0]);
            assert(s[s.len() - 2] == s.skip(s.len() - 3)[1]);
            assert(s[s.len() - 1] == s.skip(s.len() - 3)[2]);
            assert(at == s.len() - 3);
            let area = after.skip(j + 6);
            text::find_from_is_first(area, seq!['\''], 0);
            if let Some(e) = text::first_of(area, '\'') {
                assert(area.subrange(e, e + 1)[0] == '\'');
                assert(area[e] == s[at + 1 + e]);
                assert(false);
            }
        }
        no_name_without_quotes(s, k + prefix.len());
    }
}

/// Reading the mark of a skill gives back its name and nothing else, where the name
/// has no quote in it.
pub proof fn marker_gives_back_name(name: Seq<char>)
    requires
        forall|i: int| 0 <= i < name.len() ==> name[i] != '\'',
    ensures
        pruned_skill_names(skill_marker(name)) == seq![name],
{
    let s = skill_marker(name);
    let prefix = SKILL_PRUNED_MARKER_PREFIX@;
    prefix_shape(1);
    marker_middle_shape();
    reveal_strlit("')]");
    assert(s.subrange(0, prefix.len() as int) =~= prefix);
    assert(text::occurs_at(s, prefix, 0));
    text::find_from_is_first(s, prefix, 0);
    assert(s.skip(prefix.len() as int) =~= marker_middle() + name + "')]"@ + Seq::empty());
    name_after_marker(name, Seq::empty());
    // From the beginning of the mark on, the next mark could only begin in the name.
    let pos = prefix.len() as int;
    let rest = marked_names(s, pos);
    text::find_from_is_first(s, prefix, pos);
    assert(s.skip(s.len() - 3) =~= "')]"@);
    if let Some(k) = text::find_from(s, prefix, pos) {
        if k < pos + 59 {
            let c = s.subrange(k, k + prefix.len())[0];
            assert(c == prefix[0]);
            assert(s[k] == marker_middle()[k - pos]);
            marker_middle_holds_no_bracket(k - pos);
            reveal_strlit("[SKILL_PRUNED:");
            assert(false);
        }
        assert forall|i: int| k <= i < s.len() - 3 implies s[i] != '\'' by {
            assert(s[i] == name[i - pos - 59]);
        }
        no_name_without_quotes(s, k);
        assert(text::find_from(s, prefix, k) == Some(k));
        assert(marked_names(s, k) == rest);
    }
    assert(rest =~= Seq::<Seq<char>>::empty());
    let found = marked_names(s, 0);
    assert(found =~= seq![name]);
    assert(found.drop_last() =~= Seq::<Seq<char>>::empty());
    assert(seqs::distinct(found.drop_last()) =~= Seq::<Seq<char>>::empty());
    assert(seqs::distinct(found) =~= seq![name]);
}

/// No mark begins between the beginning of a mark and its name.
proof fn marker_middle_holds_no_bracket(i: int)
    requires
        0 <= i < 59,
    ensures
        marker_middle()[i] != '[',
{
    reveal_strlit(" content lost in compression; reload with skill_view(name='");
    assert(
        i == 0 || i == 1 || i == 2 || i == 3 || i == 4 || i == 5 || i == 6 || i == 7
        || i == 8 || i == 9 || i == 10 || i == 11 || i == 12 || i == 13 || i == 14
        || i == 15 || i == 16 || i == 17 || i == 18 || i == 19 || i == 20 || i == 21
        || i == 22 || i == 23 || i == 24 || i == 25 || i == 26 || i == 27 || i == 28
        || i == 29 || i == 30 || i == 31 || i == 32 || i == 33 || i == 34 || i == 35
        || i == 36 || i == 37 || i == 38 || i == 39 || i == 40 || i == 41 || i == 42
        || i == 43 || i == 44 || i == 45 || i == 46 || i == 47 || i == 48 || i == 49
        || i == 50 || i == 51 || i == 52 || i == 53 || i == 54 || i == 55 || i == 56
        || i == 57 || i == 58
    );
}

/// What is found in a text is found at the same place once more text follows.
proof fn find_from_extends(s: Seq<char>, extra: Seq<char>, p: Seq<char>, i: int)
    requires
        0 <= i,
        text::find_from(s, p, i) is Some,
    ensures
        text::find_from(s + extra, p, i) == text::find_from(s, p, i),
{
    text::find_from_is_first(s, p, i);
    text::find_from_is_first(s + extra, p, i);
    let k = text::find_from(s, p, i)->0;
    let t = s + extra;
    assert(t.subrange(k, k + p.len()) =~= s.subrange(k, k + p.len()));
    assert(text::occurs_at(t, p, k));
    let m = text::find_from(t, p, i)->0;
    if m < k {
        assert(t.subrange(m, m + p.len()) =~= s.subrange(m, m + p.len()));
        assert(text::occurs_at(s, p, m));
        assert(false);
    }
}

/// A name that is read behind the beginning of a mark is read there once more text
/// follows.
proof fn name_after_extends(after: Seq<char>, extra: Seq<char>)
    requires
        name_after(after) is Some,
    ensures
        name_after(after + extra) == name_after(after),
{
    let key = "name='"@;
    text::find_from_is_first(after, key, 0);
    find_from_extends(after, extra, key, 0);
    let k = text::find(after, key)->0;
    let area = after.skip(k + key.len());
    assert((after + extra).skip(k + key.len()) =~= area + extra);
    find_from_extends(area, extra, seq!['\''], 0);
    text::find_from_is_first(area, seq!['\''], 0);
    let e = text::first_of(area, '\'')->0;
    assert((area + extra).take(e) =~= area.take(e));
}

/// A name that is read from a text belongs to one of its marks.
proof fn read_names_have_marks(s: Seq<char>, pos: int, name: Seq<char>) -> (k: int)
    requires
        0 <= pos,
        marked_names(s, pos).contains(name),
    ensures
        pos <= k,
        text::occurs_at(s, SKILL_PRUNED_MARKER_PREFIX@, k),
        name_after(s.skip(k + SKILL_PRUNED_MARKER_PREFIX@.len())) == Some(name),
    decreases s.len() - pos,
{
    let prefix = SKILL_PRUNED_MARKER_PREFIX@;
    prefix_shape(1);
    text::find_from_is_first(s, prefix, pos);
    let m = text::find_from(s, prefix, pos)->0;
    let rest = marked_names(s, m + prefix.len());
    let found = marked_names(s, pos);
    let i = choose|i: int| 0 <= i < found.len() && found[i] == name;
    match name_after(s.skip(m + prefix.len())) {
        Some(first) => {
            if i == 0 {
                m
            } else {
                assert(rest[i - 1] == name);
                read_names_have_marks(s, m + prefix.len(), name)
            }
        },
        None => {
            assert(rest[i] == name);
            read_names_have_marks(s, m + prefix.len(), name)
        },
    }
}

/// A name that is read from a text is read once more text follows.
pub proof fn read_names_stay(s: Seq<char>, extra: Seq<char>, name: Seq<char>)
    requires
        pruned_skill_names(s).contains(name),
    ensures
        pruned_skill_names(s + extra).contains(name),
{
    let prefix = SKILL_PRUNED_MARKER_PREFIX@;
    let t = s + extra;
    seqs::distinct_keeps(marked_names(s, 0));
    let k = read_names_have_marks(s, 0, name);
    assert(t.subrange(k, k + prefix.len()) =~= s.subrange(k, k + prefix.len()));
    assert(text::occurs_at(t, prefix, k));
    assert(t.skip(k + prefix.len()) =~= s.skip(k + prefix.len()) + extra);
    name_after_extends(s.skip(k + prefix.len()), extra);
    marks_are_read(t, 0, k);
    seqs::distinct_keeps(marked_names(t, 0));
}

/// Each name has its mark among the lines.
proof fn marker_lines_hold(names: Seq<Seq<char>>, i: int) -> (parts: (Seq<char>, Seq<char>))
    requires
        0 <= i < names.len(),
    ensures
        marker_lines(names) == parts.0 + skill_marker(names[i]) + parts.1,
    decreases names.len(),
{
    if i == names.len() - 1 {
        (marker_lines(names.drop_last()), "\n"@)
    } else {
        let (a, b) = marker_lines_hold(names.drop_last(), i);
        let tail = b + skill_marker(names.last()) + "\n"@;
        assert(marker_lines(names) =~= a + skill_marker(names[i]) + tail);
        (a, tail)
    }
}

/// Once the marks are put back, every named skill can be read from the summary, where
/// no name has a quote in it and no more than the greatest number was missing.
pub proof fn reinjected_names_are_read(summary: Seq<char>, names: Seq<Seq<char>>, i: int)
    requires
        0 <= i < names.len(),
        forall|j: int| 0 <= j < names[i].len() ==> names[i][j] != '\'',
        missing_names(names, pruned_skill_names(summary)).len() <= MAX_PRUNED_SKILL_MARKERS,
    ensures
        pruned_skill_names(reinjected(summary, names)).contains(names[i]),
{
    let existing = pruned_skill_names(summary);
    let keep = |n: Seq<char>| !existing.contains(n);
    let missing = missing_names(names, existing);
    let header = "\n\n## Pruned Skills\n"@;
    let lines = marker_lines(missing);
    assert(missing.take(missing.len() as int) =~= missing);
    if missing.len() == 0 {
        if !existing.contains(names[i]) {
            assert(keep(names[i]));
            assert(missing.contains(names[i]));
            assert(false);
        }
    } else {
        let result = summary + header + lines;
        assert(reinjected(summary, names) == result);
        if existing.contains(names[i]) {
            assert(result =~= summary + (header + lines));
            read_names_stay(summary, header + lines, names[i]);
        } else {
            assert(keep(names[i]));
            assert(missing.contains(names[i]));
            let k = choose|k: int| 0 <= k < missing.len() && missing[k] == names[i];
            let (a, b) = marker_lines_hold(missing, k);
            assert(result =~= (summary + header + a) + skill_marker(names[i]) + b);
            marker_is_read(summary + header + a, names[i], b);
        }
    }
}

/// Putting the marks back a second time changes nothing, where no name has a quote
/// in it and no more than the greatest number was missing.
pub proof fn reinjecting_again_changes_nothing(summary: Seq<char>, names: Seq<Seq<char>>)
    requires
        forall|i: int, j: int|
            0 <= i < names.len() && 0 <= j < names[i].len() ==> #[trigger] names[i][j] != '\'',
        missing_names(names, pruned_skill_names(summary)).len() <= MAX_PRUNED_SKILL_MARKERS,
    ensures
        reinjected(reinjected(summary, names), names) == reinjected(summary, names),
{
    let result = reinjected(summary, names);
    let existing = pruned_skill_names(result);
    let keep = |n: Seq<char>| !existing.contains(n);
    let missing = missing_names(names, existing);
    if missing.len() > 0 {
        assert(keep(missing[0]));
        names.lemma_filter_contains_rev(keep, missing[0]);
        let i = choose|i: int| 0 <= i < names.len() && names[i] == missing[0];
        reinjected_names_are_read(summary, names, i);
        assert(false);
    }
}

// ---------- laws on what is left out ----------

/// A result that is no longer than it may be stays as it is, and so does every message that
/// is no result; a longer result keeps its beginning and says how long it was.
pub proof fn only_long_results_are_cut(m: MessageModel, max: int)
    requires
        0 <= max,
    ensures
        m.role != Role::Tool ==> cut_output(m, max) == m,
        m.text().len() <= max ==> cut_output(m, max) == m,
        m.role == Role::Tool && m.text().len() > max ==> {
            let cut = cut_output(m, max);
            &&& cut.role == m.role
            &&& cut.tool_call_id == m.tool_call_id
            &&& cut.tool_calls == m.tool_calls
            &&& cut.text().len() > max
            &&& cut.text().take(max) == m.text().take(max)
            &&& text::contains(cut.text(), text::decimal(m.text().len()))
        },
{
    broadcast use text::group_parts;

    if m.role == Role::Tool && m.text().len() > max {
        reveal_strlit("\n... [truncated, original ");
        assert(cut_output(m, max).text().take(max) =~= m.text().take(max));
    }
}

/// A result is replaced as a repeat only where a later result has the same text, so that the
/// text itself is never lost: the last result with it stays as it is.
pub proof fn the_last_of_its_text_stays(msgs: Seq<MessageModel>, i: int)
    requires
        0 <= i < msgs.len(),
        forall|j: int|
            i < j < msgs.len() ==> !((#[trigger] msgs[j]).role == Role::Tool && msgs[j].text()
                == msgs[i].text()),
    ensures
        deduped(msgs, i) == msgs[i],
{
}

/// Only a result is ever replaced as a repeat.
pub proof fn only_results_are_repeats(msgs: Seq<MessageModel>, i: int)
    ensures
        msgs[i].role != Role::Tool ==> deduped(msgs, i) == msgs[i],
        deduped(msgs, i).role == msgs[i].role,
        deduped(msgs, i).tool_call_id == msgs[i].tool_call_id,
        deduped(msgs, i).tool_calls == msgs[i].tool_calls,
{
}

/// What is put in the place of a result is known again as such, and a text that does not
/// begin with a square bracket never is.
pub proof fn what_stands_for_a_result_is_known(s: Seq<char>, name: Seq<char>, len: nat)
    ensures
        is_placeholder(DUPLICATE_TOOL_PLACEHOLDER@),
        is_placeholder(demoted_text(len)),
        is_placeholder(skill_marker(name)),
        s.len() == 0 || s[0] != '[' ==> !is_placeholder(s),
{
    reveal_strlit("[Old tool output");
    reveal_strlit("[Duplicate tool output");
    reveal_strlit("[SKILL_PRUNED:");
    reveal_strlit("[Old tool output cleared to save context space]");
    reveal_strlit("[Duplicate tool output — same content as a more recent call]");
    let a = "[Old tool output"@;
    let b = "[Duplicate tool output"@;
    let c = "[SKILL_PRUNED:"@;
    assert(DUPLICATE_TOOL_PLACEHOLDER@.subrange(0, b.len() as int) =~= b);
    assert(demoted_text(len).subrange(0, a.len() as int) =~= a);
    assert(skill_marker(name).subrange(0, c.len() as int) =~= c);
    if s.len() == 0 || s[0] != '[' {
        if text::starts_with(s, a) {
            assert(s.subrange(0, a.len() as int)[0] == s[0]);
        }
        if text::starts_with(s, b) {
            assert(s.subrange(0, b.len() as int)[0] == s[0]);
        }
        if text::starts_with(s, c) {
            assert(s.subrange(0, c.len() as int)[0] == s[0]);
        }
    }
}

/// The skill of a call is the one that a call of the model with that identifier looks at.
proof fn a_skill_is_one_that_was_looked_at(msgs: Seq<MessageModel>, id: Seq<char>)
    ensures
        skill_of_call(msgs, id) matches Some(name) ==> exists|k: int, c: ToolCallModel|
            {
                &&& 0 <= k < msgs.len()
                &&& msgs[k].role == Role::Assistant
                &&& #[trigger] msgs[k].calls().contains(c)
                &&& c.name == "skill_view"@
                &&& c.id == id
                &&& c.arguments.at("name"@) == JsonModel::Str(name)
            },
    decreases msgs.len(),
{
    if msgs.len() > 0 && skill_of_call(msgs, id) is Some {
        let last = msgs.last();
        if last.role == Role::Assistant && skill_in_calls(last.calls(), id) is Some {
            skill_in_calls_was_there(last.calls(), id);
            let name = skill_in_calls(last.calls(), id)->0;
            let i = choose|i: int|
                0 <= i < last.calls().len() && viewed_skill(#[trigger] last.calls()[i], id)
                    == Some(name);
            assert(msgs[msgs.len() - 1].calls().contains(last.calls()[i]));
        } else {
            a_skill_is_one_that_was_looked_at(msgs.drop_last(), id);
            let name = skill_of_call(msgs, id)->0;
            let front = msgs.drop_last();
            let (k, c) = choose|k: int, c: ToolCallModel|
                {
                    &&& 0 <= k < front.len()
                    &&& front[k].role == Role::Assistant
                    &&& #[trigger] front[k].calls().contains(c)
                    &&& c.name == "skill_view"@
                    &&& c.id == id
                    &&& c.arguments.at("name"@) == JsonModel::Str(name)
                };
            assert(front[k] == msgs[k]);
            assert(msgs[k].calls().contains(c));
        }
    }
}

/// The skill among calls is the one of a call.
proof fn skill_in_calls_was_there(calls: Seq<ToolCallModel>, id: Seq<char>)
    ensures
        skill_in_calls(calls, id) matches Some(name) ==> exists|i: int|
            0 <= i < calls.len() && viewed_skill(#[trigger] calls[i], id) == Some(name),
    decreases calls.len(),
{
    if calls.len() > 0 && skill_in_calls(calls, id) is Some {
        if viewed_skill(calls.last(), id) is Some {
            assert(viewed_skill(calls[calls.len() - 1], id) is Some);
        } else {
            skill_in_calls_was_there(calls.drop_last(), id);
            let name = skill_in_calls(calls, id)->0;
            let i = choose|i: int|
                0 <= i < calls.drop_last().len() && viewed_skill(
                    #[trigger] calls.drop_last()[i],
                    id,
                ) == Some(name);
            assert(calls[i] == calls.drop_last()[i]);
        }
    }
}

/// A skill that a call of the model looks at is found by the identifier of the call.
proof fn a_skill_that_was_looked_at_is_found(
    msgs: Seq<MessageModel>,
    id: Seq<char>,
    k: int,
    c: ToolCallModel,
)
    requires
        0 <= k < msgs.len(),
        msgs[k].role == Role::Assistant,
        msgs[k].calls().contains(c),
        viewed_skill(c, id) is Some,
    ensures
        skill_of_call(msgs, id) is Some,
    decreases msgs.len(),
{
    if k == msgs.len() - 1 {
        skill_among_calls_is_found(msgs[k].calls(), id, c);
    } else {
        assert(msgs.drop_last()[k] == msgs[k]);
        a_skill_that_was_looked_at_is_found(msgs.drop_last(), id, k, c);
    }
}

/// A skill that one of the calls looks at is found among them.
proof fn skill_among_calls_is_found(calls: Seq<ToolCallModel>, id: Seq<char>, c: ToolCallModel)
    requires
        calls.contains(c),
        viewed_skill(c, id) is Some,
    ensures
        skill_in_calls(calls, id) is Some,
    decreases calls.len(),
{
    if calls.last() != c {
        let i = choose|i: int| 0 <= i < calls.len() && calls[i] == c;
        assert(calls.drop_last()[i] == c);
        skill_among_calls_is_found(calls.drop_last(), id, c);
    }
}

/// Only long results of looking at a skill are cleared, and the mark that takes their place
/// names the skill, so that it can be loaded again; every such result is cleared.
pub proof fn cleared_skills_can_be_loaded_again(
    msgs: Seq<MessageModel>,
    m: MessageModel,
    k: int,
    c: ToolCallModel,
)
    ensures
        m.role != Role::Tool || m.text().len() < 5000 ==> skill_cleared(msgs, m) == m,
        skill_cleared(msgs, m) != m ==> exists|i: int, d: ToolCallModel|
            {
                &&& 0 <= i < msgs.len()
                &&& msgs[i].role == Role::Assistant
                &&& #[trigger] msgs[i].calls().contains(d)
                &&& d.name == "skill_view"@
                &&& m.tool_call_id == Some(d.id)
                &&& d.arguments.at("name"@) matches JsonModel::Str(name) && text::contains(
                    skill_cleared(msgs, m).text(),
                    "skill_view(name='"@ + name + "')"@,
                )
            },
        skill_cleared(msgs, m).role == m.role,
        skill_cleared(msgs, m).tool_call_id == m.tool_call_id,
        m.role == Role::Tool && m.text().len() >= 5000 && m.tool_call_id == Some(c.id) && 0 <= k
            < msgs.len() && msgs[k].role == Role::Assistant && msgs[k].calls().contains(c)
            && c.name == "skill_view"@ && c.arguments.at("name"@) is Str ==> text::starts_with(
            skill_cleared(msgs, m).text(),
            "[SKILL_PRUNED:"@,
        ),
{
    if skill_cleared(msgs, m) != m {
        let id = m.tool_call_id->0;
        a_skill_is_one_that_was_looked_at(msgs, id);
        let name = skill_of_call(msgs, id)->0;
        let (i, d) = choose|i: int, d: ToolCallModel|
            {
                &&& 0 <= i < msgs.len()
                &&& msgs[i].role == Role::Assistant
                &&& #[trigger] msgs[i].calls().contains(d)
                &&& d.name == "skill_view"@
                &&& d.id == id
                &&& d.arguments.at("name"@) == JsonModel::Str(name)
            };
        let mark = skill_marker(name);
        let shown = "skill_view(name='"@ + name + "')"@;
        reveal_strlit("[SKILL_PRUNED:");
        reveal_strlit(" content lost in compression; reload with skill_view(name='");
        reveal_strlit("skill_view(name='");
        reveal_strlit("')");
        reveal_strlit("')]");
        let at = mark.len() - 1 - shown.len();
        assert(mark.subrange(at, at + shown.len()) =~= shown);
        assert(text::occurs_at(mark, shown, at));
        assert(msgs[i].calls().contains(d));
    }
    if m.role == Role::Tool && m.text().len() >= 5000 && m.tool_call_id == Some(c.id) && 0 <= k
        < msgs.len() && msgs[k].role == Role::Assistant && msgs[k].calls().contains(c) && c.name
        == "skill_view"@ && c.arguments.at("name"@) is Str {
        a_skill_that_was_looked_at_is_found(msgs, c.id, k, c);
        let name = skill_of_call(msgs, c.id)->0;
        assert(m.content is Some);
        let mark = skill_marker(name);
        assert(mark.subrange(0, SKILL_PRUNED_MARKER_PREFIX@.len() as int)
            =~= SKILL_PRUNED_MARKER_PREFIX@);
    }
}

/// Under pressure only long results behind the beginning of the tail are cleared; everything
/// before it stays as it is, and so does what is short.
pub proof fn only_long_results_of_the_tail_are_cleared(
    msgs: Seq<MessageModel>,
    tail_start: int,
    min: int,
    i: int,
)
    ensures
        i < tail_start || msgs[i].role != Role::Tool || msgs[i].text().len() <= min ==> demoted(
            msgs,
            tail_start,
            min,
            i,
        ) == msgs[i],
        i >= tail_start && msgs[i].role == Role::Tool && msgs[i].text().len() > min && min >= 0
            && !is_placeholder(msgs[i].text()) ==> {
            let d = demoted(msgs, tail_start, min, i);
            &&& text::starts_with(d.text(), "[Old tool output cleared to save context space]"@)
            &&& text::contains(d.text(), text::decimal(msgs[i].text().len()))
            &&& d.tool_call_id == msgs[i].tool_call_id
            &&& d.role == msgs[i].role
        },
{
    broadcast use text::group_parts;

    if i >= tail_start && msgs[i].role == Role::Tool && msgs[i].text().len() > min && min >= 0
        && !is_placeholder(msgs[i].text()) {
        let d = demoted(msgs, tail_start, min, i).text();
        assert(d.subrange(0, PRUNED_TOOL_PLACEHOLDER@.len() as int) =~= PRUNED_TOOL_PLACEHOLDER@);
    }
}

/// Putting marks of skills behind a summary leaves the summary as it is.
pub proof fn a_summary_keeps_its_text(summary: Seq<char>, names: Seq<Seq<char>>)
    ensures
        text::starts_with(reinjected(summary, names), summary),
        names.len() == 0 ==> reinjected(summary, names) == summary,
{
    let r = reinjected(summary, names);
    assert(r.subrange(0, summary.len() as int) =~= summary);
    if names.len() == 0 {
        reveal(Seq::filter);
    }
}

/// A file has been changed where a write says how much was written or a patch that it
/// succeeded, and there was no error; no other tool changes a file.
pub proof fn changes_of_files_are_known(tool: Seq<char>, result: JsonModel)
    ensures
        result.get("error"@) is Some ==> !mutation_landed(tool, result),
        mutation_landed(tool, result) ==> tool == "write_file"@ || tool == "patch"@,
        result.get("error"@) is None && result.get("bytes_written"@) is Some ==> mutation_landed(
            "write_file"@,
            result,
        ),
        result.get("error"@) is None && result.get("success"@) == Some(JsonModel::Bool(true))
            ==> mutation_landed("patch"@, result),
        result.get("bytes_written"@) is None ==> !mutation_landed("write_file"@, result),
        result.get("success"@) != Some(JsonModel::Bool(true)) ==> !mutation_landed(
            "patch"@,
            result,
        ),
{
    reveal_strlit("write_file");
    reveal_strlit("patch");
    assert("write_file"@.len() != "patch"@.len());
}

/// One message more is one long result more exactly where it is a result of a tool that has
/// not been cleared, stands in the tail and is longer than it may be.
pub proof fn long_results_are_counted_one_by_one(
    msgs: Seq<MessageModel>,
    m: MessageModel,
    tail_start: int,
    min: int,
)
    ensures
        large_outputs(Seq::empty(), tail_start, min) == 0,
        large_outputs(msgs.push(m), tail_start, min) == large_outputs(msgs, tail_start, min)
            + if msgs.len() >= tail_start && m.role == Role::Tool && m.text().len() > min
            && m.content is Some && !is_placeholder(m.text()) {
            1int
        } else {
            0int
        },
        long_outputs(Seq::empty(), min) == 0,
        long_outputs(msgs.push(m), min) == long_outputs(msgs, min) + if m.role == Role::Tool
            && m.content is Some && m.text().len() > min {
            1int
        } else {
            0int
        },
{
    let all = msgs.push(m);
    let n = msgs.len() as int;
    let p = |i: int| i >= tail_start && is_large_output(msgs[i], min);
    let q = |i: int| i >= tail_start && is_large_output(all[i], min);
    assert forall|i: int| 0 <= i < n implies #[trigger] q(i) == p(i) by {
        assert(all[i] == msgs[i]);
    }
    seqs::count_below_same(q, p, n);
    assert(all[n] == m);
    let s = |i: int| is_long_output(msgs[i], min);
    let t = |i: int| is_long_output(all[i], min);
    assert forall|i: int| 0 <= i < n implies #[trigger] t(i) == s(i) by {
        assert(all[i] == msgs[i]);
    }
    seqs::count_below_same(t, s, n);
}

} // verus!

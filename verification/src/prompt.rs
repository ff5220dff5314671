//! The prompt of an agent, in three parts: what stays the same for a session, what the
//! request brings, and what may change from turn to turn.
use vstd::prelude::*;

use crate::config::{AgentLoopConfig, PromptConfig};
use crate::llm::{ToolDefinition, ToolDefinitionModel};
use crate::text;
use crate::text::{
    chars_of, cut, join_text, replace_text, string_of, take_text, trim_text,
};

verus! {

broadcast use crate::seqs::group_views;

/// The parts of a prompt.
#[derive(Debug, PartialEq, Eq)]
pub struct PromptParts {
    pub stable: String,
    pub context: String,
    pub volatile: String,
}

/// The parts of a prompt.
#[verifier::ext_equal]
pub struct PartsModel {
    pub stable: Seq<char>,
    pub context: Seq<char>,
    pub volatile: Seq<char>,
}

impl View for PromptParts {
    type V = PartsModel;

    open spec fn view(&self) -> PartsModel {
        PartsModel {
            stable: self.stable@,
            context: self.context@,
            volatile: self.volatile@,
        }
    }
}

/// The texts that are not empty.
pub open spec fn present(parts: Seq<Seq<char>>) -> Seq<Seq<char>> {
    parts.filter(|p: Seq<char>| p.len() > 0)
}

/// The texts that are not empty, with an empty line between them.
pub open spec fn paragraphs(parts: Seq<Seq<char>>) -> Seq<char> {
    text::join(present(parts), "\n\n"@)
}

/// Three texts with an empty line between those that are not empty.
fn three_paragraphs(a: &str, b: &str, c: &str) -> (r: String)
    ensures
        r@ == paragraphs(seq![a@, b@, c@]),
{
    let mut parts: Vec<String> = Vec::new();
    if a.unicode_len() > 0 {
        parts.push(String::from_str(a));
    }
    if b.unicode_len() > 0 {
        parts.push(String::from_str(b));
    }
    if c.unicode_len() > 0 {
        parts.push(String::from_str(c));
    }
    proof {
        reveal_with_fuel(Seq::filter, 4);
        let all = seq![a@, b@, c@];
        assert(all.drop_last() =~= seq![a@, b@]);
        assert(all.drop_last().drop_last() =~= seq![a@]);
        assert(all.drop_last().drop_last().drop_last() =~= Seq::<Seq<char>>::empty());
        assert(parts.deep_view() =~= present(all));
    }
    join_text(parts.as_slice(), "\n\n")
}

impl PromptParts {
    /// The whole prompt.
    pub fn joined(&self) -> (r: String)
        ensures
            r@ == paragraphs(seq![self@.stable, self@.context, self@.volatile]),
    {
        three_paragraphs(self.stable.as_str(), self.context.as_str(), self.volatile.as_str())
    }
}

/// The first part: who the agent is, how it works and how it uses its tools.
pub fn build_stable(prompt: &PromptConfig) -> (r: String)
    ensures
        r@ == paragraphs(seq![prompt.identity@, prompt.guidance@, prompt.tool_rules@]),
{
    three_paragraphs(
        prompt.identity.as_str(),
        prompt.guidance.as_str(),
        prompt.tool_rules.as_str(),
    )
}

/// A section, where it has content.
pub open spec fn section(title: Seq<char>, content: Seq<char>) -> Seq<char> {
    if content.len() == 0 {
        Seq::empty()
    } else {
        "## "@ + title + "\n"@ + content
    }
}

/// A section, where it has content.
fn section_text(title: &str, content: &str) -> (r: String)
    ensures
        r@ == section(title@, content@),
{
    if content.unicode_len() == 0 {
        return String::new();
    }
    let mut s = String::from_str("## ");
    s.append(title);
    s.append("\n");
    s.append(content);
    s
}

/// The second part: the goal, and what the request and the files of the workspace bring.
pub open spec fn context_part(
    goal: Seq<char>,
    request: Seq<char>,
    files: Seq<char>,
) -> Seq<char> {
    paragraphs(
        seq![
            "## Goal\n"@ + goal,
            section("Context"@, request),
            section("Workspace Context"@, files),
        ],
    )
}

/// The second part of a prompt.
pub fn build_context(goal: &str, request_context: &str, context_files: &str) -> (r: String)
    ensures
        r@ == context_part(goal@, request_context@, context_files@),
{
    let mut g = String::from_str("## Goal\n");
    g.append(goal);
    let c = section_text("Context", request_context);
    let f = section_text("Workspace Context", context_files);
    three_paragraphs(g.as_str(), c.as_str(), f.as_str())
}

/// How far the time zone lies from the standard one.
pub open spec fn offset_display(offset: Seq<char>) -> Seq<char> {
    if offset.len() >= 5 {
        "UTC"@ + offset.subrange(0, 3) + ":"@ + offset.subrange(3, 5)
    } else {
        "UTC"@ + offset
    }
}

/// The line that says what day it is.
pub open spec fn date_line(weekday: Seq<char>, date: Seq<char>, offset: Seq<char>) -> Seq<char> {
    "Today's date: "@ + weekday + ", "@ + date + " ("@ + offset_display(offset) + ")"@
}

/// The line that says what day it is; the offset is written as a sign and four digits.
pub fn make_date_line(weekday: &str, date: &str, offset: &str) -> (r: String)
    ensures
        r@ == date_line(weekday@, date@, offset@),
{
    let chars = chars_of(offset);
    let mut shown = String::from_str("UTC");
    if chars.len() >= 5 {
        shown.append(string_of(cut(chars.as_slice(), 0, 3).as_slice()).as_str());
        shown.append(":");
        shown.append(string_of(cut(chars.as_slice(), 3, 5).as_slice()).as_str());
    } else {
        shown.append(offset);
    }
    let mut s = String::from_str("Today's date: ");
    s.append(weekday);
    s.append(", ");
    s.append(date);
    s.append(" (");
    s.append(shown.as_str());
    s.append(")");
    s
}

/// The lines of tools; `open` and `close` stand round their names.
pub open spec fn tool_lines(
    tools: Seq<ToolDefinitionModel>,
    open: Seq<char>,
    close: Seq<char>,
) -> Seq<Seq<char>> {
    tools.map_values(
        |t: ToolDefinitionModel| "- "@ + open + t.name + close + ": "@ + t.description,
    )
}

/// The list of tools; `open` and `close` stand round their names.
pub open spec fn tool_list(
    tools: Seq<ToolDefinitionModel>,
    open: Seq<char>,
    close: Seq<char>,
) -> Seq<char> {
    if tools.len() == 0 {
        "(no tools available)"@
    } else {
        text::join(tool_lines(tools, open, close), "\n"@)
    }
}

/// The list of tools; `open` and `close` stand round their names.
fn list_tools(tools: &[ToolDefinition], open: &str, close: &str) -> (r: String)
    ensures
        r@ == tool_list(tools.deep_view(), open@, close@),
{
    if tools.len() == 0 {
        return String::from_str("(no tools available)");
    }
    let ghost all = tool_lines(tools.deep_view(), open@, close@);
    let mut lines: Vec<String> = Vec::new();
    let mut i: usize = 0;
    while i < tools.len()
        invariant
            i <= tools@.len(),
            all == tool_lines(tools.deep_view(), open@, close@),
            lines.deep_view() == all.take(i as int),
        decreases tools@.len() - i,
    {
        let mut s = String::from_str("- ");
        s.append(open);
        s.append(tools[i].name.as_str());
        s.append(close);
        s.append(": ");
        s.append(tools[i].description.as_str());
        assert(s@ == all[i as int]);
        lines.push(s);
        i += 1;
        assert(all.take(i as int) =~= all.take(i - 1).push(all[i - 1]));
    }
    assert(all.take(i as int) =~= all);
    join_text(lines.as_slice(), "\n")
}

/// The third part: the date and the tools.
pub open spec fn volatile_part(date: Seq<char>, tools: Seq<ToolDefinitionModel>) -> Seq<char> {
    date + "\n\n"@ + "## Available Tools\n"@ + tool_list(tools, "**"@, "**"@)
}

/// The third part of a prompt; the date is the line that says what day it is.
pub fn build_volatile(date: &str, tools: &[ToolDefinition]) -> (r: String)
    ensures
        r@ == volatile_part(date@, tools.deep_view()),
{
    let mut s = String::from_str(date);
    s.append("\n\n");
    s.append("## Available Tools\n");
    s.append(list_tools(tools, "**", "**").as_str());
    s
}

/// The prompt of a template, with its places filled.
pub open spec fn filled_template(
    template: Seq<char>,
    goal: Seq<char>,
    context: Seq<char>,
    tools: Seq<ToolDefinitionModel>,
) -> Seq<char> {
    let shown = if context.len() == 0 {
        "(none)"@
    } else {
        context
    };
    text::replaced(
        text::replaced(text::replaced(template, "{goal}"@, goal), "{context}"@, shown),
        "{tools}"@,
        tool_list(tools, Seq::empty(), Seq::empty()),
    )
}

/// The prompt of a template, with its places filled.
pub fn build_legacy_prompt(
    template: &str,
    goal: &str,
    context: &str,
    tools: &[ToolDefinition],
) -> (r: String)
    ensures
        r@ == filled_template(template@, goal@, context@, tools.deep_view()),
{
    proof {
        reveal_strlit("{goal}");
        reveal_strlit("{context}");
        reveal_strlit("{tools}");
        reveal_strlit("");
        assert(""@ =~= Seq::<char>::empty());
    }
    let shown = if context.unicode_len() == 0 {
        "(none)"
    } else {
        context
    };
    let list = list_tools(tools, "", "");
    let a = replace_text(template, "{goal}", goal);
    let b = replace_text(a.as_str(), "{context}", shown);
    replace_text(b.as_str(), "{tools}", list.as_str())
}

/// The agent has no parts of a prompt, only a template.
pub open spec fn uses_template(prompt: PromptConfig) -> bool {
    prompt.identity@.len() == 0 && prompt.guidance@.len() == 0 && prompt.tool_rules@.len() == 0
}

/// The parts of the prompt for a goal. `files` is what the files of the workspace bring,
/// and `date` the line that says what day it is.
pub open spec fn parts_for(
    config: AgentLoopConfig,
    goal: Seq<char>,
    context: Seq<char>,
    tools: Seq<ToolDefinitionModel>,
    files: Seq<char>,
    date: Seq<char>,
) -> PartsModel {
    if uses_template(config.prompt) {
        PartsModel {
            stable: filled_template(config.system_prompt@, goal, context, tools),
            context: Seq::empty(),
            volatile: volatile_part(date, tools),
        }
    } else {
        PartsModel {
            stable: paragraphs(
                seq![
                    config.prompt.identity@,
                    config.prompt.guidance@,
                    config.prompt.tool_rules@,
                ],
            ),
            context: context_part(
                goal,
                context,
                if config.prompt.context_files.enabled {
                    files
                } else {
                    Seq::empty()
                },
            ),
            volatile: volatile_part(date, tools),
        }
    }
}

/// The parts of the prompt for a goal.
pub fn build_system_prompt(
    config: &AgentLoopConfig,
    goal: &str,
    context: &str,
    tools: &[ToolDefinition],
    files: &str,
    date: &str,
) -> (r: PromptParts)
    ensures
        r@ == parts_for(*config, goal@, context@, tools.deep_view(), files@, date@),
{
    let volatile = build_volatile(date, tools);
    if config.prompt.identity.as_str().unicode_len() == 0
        && config.prompt.guidance.as_str().unicode_len() == 0
        && config.prompt.tool_rules.as_str().unicode_len() == 0 {
        return PromptParts {
            stable: build_legacy_prompt(config.system_prompt.as_str(), goal, context, tools),
            context: String::new(),
            volatile,
        };
    }
    proof {
        reveal_strlit("");
        assert(""@ =~= Seq::<char>::empty());
    }
    let files = if config.prompt.context_files.enabled {
        files
    } else {
        ""
    };
    PromptParts {
        stable: build_stable(&config.prompt),
        context: build_context(goal, context, files),
        volatile,
    }
}

/// The prompt that a run begins with: its parts, one after the other.
pub open spec fn opening_prompt(
    config: AgentLoopConfig,
    goal: Seq<char>,
    context: Seq<char>,
    tools: Seq<ToolDefinitionModel>,
    files: Seq<char>,
    date: Seq<char>,
) -> Seq<char> {
    let parts = parts_for(config, goal, context, tools, files, date);
    paragraphs(seq![parts.stable, parts.context, parts.volatile])
}

/// The prompt that a run begins with.
pub fn compose_prompt(
    config: &AgentLoopConfig,
    goal: &str,
    context: &str,
    tools: &[ToolDefinition],
    files: &str,
    date: &str,
) -> (r: String)
    ensures
        r@ == opening_prompt(*config, goal@, context@, tools.deep_view(), files@, date@),
{
    build_system_prompt(config, goal, context, tools, files, date).joined()
}

/// The first part of a prompt that is made of parts is the same whatever the run is about.
pub proof fn the_first_part_stays_the_same(
    config: AgentLoopConfig,
    goal: Seq<char>,
    context: Seq<char>,
    tools: Seq<ToolDefinitionModel>,
    files: Seq<char>,
    date: Seq<char>,
    other_files: Seq<char>,
    other_date: Seq<char>,
)
    requires
        !uses_template(config.prompt),
    ensures
        parts_for(config, goal, context, tools, files, date).stable == parts_for(
            config,
            Seq::empty(),
            Seq::empty(),
            Seq::empty(),
            other_files,
            other_date,
        ).stable,
{
}

// ---------- files of the workspace ----------

/// What is read of a file: no more than so many characters, with a note where there are
/// more.
pub open spec fn read_part(content: Seq<char>, max_chars: int) -> Seq<char> {
    if content.len() > max_chars {
        text::first_chars(content, max_chars) + "\n... [truncated]"@
    } else {
        content
    }
}

/// What a file brings to the prompt.
pub open spec fn file_section(
    name: Seq<char>,
    content: Seq<char>,
    max_chars: int,
) -> Seq<char> {
    "### "@ + name + "\n"@ + text::trim(read_part(content, max_chars))
}

/// What a file brings to the prompt.
pub fn make_file_section(name: &str, content: &str, max_chars: usize) -> (r: String)
    ensures
        r@ == file_section(name@, content@, max_chars as int),
{
    let n: usize = content.unicode_len();
    let part = if n > max_chars {
        let mut p = take_text(content, max_chars);
        p.append("\n... [truncated]");
        p
    } else {
        String::from_str(content)
    };
    let mut s = String::from_str("### ");
    s.append(name);
    s.append("\n");
    s.append(trim_text(part.as_str()).as_str());
    s
}

/// What the files that were found bring to the prompt: the first of them is the nearest
/// and most important, and stands alone.
pub open spec fn workspace_context(
    found: Seq<(Seq<char>, Seq<char>)>,
    max_chars: int,
) -> Seq<char> {
    if found.len() == 0 {
        Seq::empty()
    } else {
        file_section(found[0].0, found[0].1, max_chars)
    }
}

/// The names and contents of files.
pub open spec fn files_model(v: Seq<(String, String)>) -> Seq<(Seq<char>, Seq<char>)> {
    Seq::new(v.len(), |i: int| (v[i].0@, v[i].1@))
}

/// What the files that were found bring to the prompt. They are given in the order in
/// which they were looked for: from the working directory upwards, and in each directory
/// by importance.
pub fn load_context_files(found: &[(String, String)], max_chars: usize) -> (r: String)
    ensures
        r@ == workspace_context(files_model(found@), max_chars as int),
{
    if found.len() == 0 {
        String::new()
    } else {
        make_file_section(found[0].0.as_str(), found[0].1.as_str(), max_chars)
    }
}

/// Every part that is not empty stands among the paragraphs.
proof fn parts_stand_in_the_paragraphs(parts: Seq<Seq<char>>, i: int)
    requires
        0 <= i < parts.len(),
        parts[i].len() > 0,
    ensures
        text::contains(paragraphs(parts), parts[i]),
{
    let given = |p: Seq<char>| p.len() > 0;
    let kept = present(parts);
    assert(given(parts[i]));
    assert(kept.contains(parts[i]));
    let k = choose|k: int| 0 <= k < kept.len() && kept[k] == parts[i];
    text::parts_stand_in_a_join(kept, "\n\n"@, k);
}

/// What an agent is told first holds its goal, what it is given as context and of its
/// workspace, who it is and what rules it has, what day it is, and every tool that it can
/// call, with what it does.
pub proof fn an_agent_is_told_all_it_needs(
    config: AgentLoopConfig,
    goal: Seq<char>,
    context: Seq<char>,
    tools: Seq<ToolDefinitionModel>,
    files: Seq<char>,
    date: Seq<char>,
    k: int,
)
    ensures
        ({
            let p = opening_prompt(config, goal, context, tools, files, date);
            &&& text::contains(p, date)
            &&& 0 <= k < tools.len() ==> text::contains(p, tools[k].name) && text::contains(
                p,
                tools[k].description,
            )
            &&& config.prompt.identity@.len() > 0 || config.prompt.guidance@.len() > 0
                || config.prompt.tool_rules@.len() > 0 ==> {
                &&& text::contains(p, goal)
                &&& text::contains(p, context)
                &&& config.prompt.context_files.enabled ==> text::contains(p, files)
                &&& text::contains(p, config.prompt.identity@)
                &&& text::contains(p, config.prompt.guidance@)
                &&& text::contains(p, config.prompt.tool_rules@)
            }
            &&& config.prompt.identity@.len() == 0 && config.prompt.guidance@.len() == 0
                && config.prompt.tool_rules@.len() == 0 ==> text::contains(
                p,
                filled_template(config.system_prompt@, goal, context, tools),
            )
        }),
{
    broadcast use text::group_parts;

    let parts = parts_for(config, goal, context, tools, files, date);
    let three = seq![parts.stable, parts.context, parts.volatile];
    let p = opening_prompt(config, goal, context, tools, files, date);
    reveal_strlit("\n\n");
    assert(parts.volatile.len() > 0);
    parts_stand_in_the_paragraphs(three, 2);
    assert(text::contains(p, parts.volatile));
    assert(text::contains(parts.volatile, date));
    text::a_part_of_a_part(p, parts.volatile, date);
    if 0 <= k < tools.len() {
        let lines = tool_lines(tools, "**"@, "**"@);
        let list = tool_list(tools, "**"@, "**"@);
        text::parts_stand_in_a_join(lines, "\n"@, k);
        assert(lines[k] == "- "@ + "**"@ + tools[k].name + "**"@ + ": "@ + tools[k].description);
        assert(text::contains(lines[k], tools[k].name));
        assert(text::contains(lines[k], tools[k].description));
        text::a_part_of_a_part(list, lines[k], tools[k].name);
        text::a_part_of_a_part(list, lines[k], tools[k].description);
        assert(text::contains(parts.volatile, list));
        text::a_part_of_a_part(parts.volatile, list, tools[k].name);
        text::a_part_of_a_part(parts.volatile, list, tools[k].description);
        text::a_part_of_a_part(p, parts.volatile, tools[k].name);
        text::a_part_of_a_part(p, parts.volatile, tools[k].description);
    }
    if !uses_template(config.prompt) {
        let shown = if config.prompt.context_files.enabled {
            files
        } else {
            Seq::empty()
        };
        let inner = seq![
            "## Goal\n"@ + goal,
            section("Context"@, context),
            section("Workspace Context"@, shown),
        ];
        reveal_strlit("## Goal\n");
        assert(inner[0].len() > 0);
        parts_stand_in_the_paragraphs(inner, 0);
        assert(parts.context == paragraphs(inner));
        assert(text::contains(parts.context, inner[0]));
        let at = choose|i: int| text::occurs_at(parts.context, inner[0], i);
        assert(parts.context.len() > 0);
        parts_stand_in_the_paragraphs(three, 1);
        assert(text::contains(p, parts.context));
        assert(text::contains(inner[0], goal));
        text::a_part_of_a_part(parts.context, inner[0], goal);
        text::a_part_of_a_part(p, parts.context, goal);
        empty_stands_anywhere(p);
        if context.len() > 0 {
            assert(text::contains(inner[1], context));
            assert(inner[1].len() > 0);
            parts_stand_in_the_paragraphs(inner, 1);
            text::a_part_of_a_part(parts.context, inner[1], context);
            text::a_part_of_a_part(p, parts.context, context);
        } else {
            assert(context =~= Seq::<char>::empty());
        }
        if shown.len() > 0 {
            assert(text::contains(inner[2], shown));
            assert(inner[2].len() > 0);
            parts_stand_in_the_paragraphs(inner, 2);
            text::a_part_of_a_part(parts.context, inner[2], shown);
            text::a_part_of_a_part(p, parts.context, shown);
        } else {
            assert(shown =~= Seq::<char>::empty());
        }
        let who = seq![
            config.prompt.identity@,
            config.prompt.guidance@,
            config.prompt.tool_rules@,
        ];
        assert forall|i: int| 0 <= i < 3 implies text::contains(p, #[trigger] who[i]) by {
            if who[i].len() > 0 {
                parts_stand_in_the_paragraphs(who, i);
                let b = choose|b: int| text::occurs_at(parts.stable, who[i], b);
                assert(parts.stable.len() > 0);
                parts_stand_in_the_paragraphs(three, 0);
                text::a_part_of_a_part(p, parts.stable, who[i]);
            } else {
                assert(who[i] =~= Seq::<char>::empty());
            }
        }
        assert(text::contains(p, who[0]));
        assert(text::contains(p, who[1]));
        assert(text::contains(p, who[2]));
    } else {
        empty_stands_anywhere(p);
        if parts.stable.len() > 0 {
            parts_stand_in_the_paragraphs(three, 0);
        } else {
            assert(parts.stable =~= Seq::<char>::empty());
        }
    }
}

/// Nothing stands in every text.
proof fn empty_stands_anywhere(s: Seq<char>)
    ensures
        text::contains(s, Seq::empty()),
{
    assert(s.subrange(0, 0) =~= Seq::<char>::empty());
    assert(text::occurs_at(s, Seq::empty(), 0));
}

/// The line of the day gives the weekday, the date and how far the clock is from the world's.
pub proof fn the_day_is_told(weekday: Seq<char>, date: Seq<char>, offset: Seq<char>)
    ensures
        text::contains(date_line(weekday, date, offset), weekday),
        text::contains(date_line(weekday, date, offset), date),
        offset.len() == 5 ==> text::contains(
            date_line(weekday, date, offset),
            "UTC"@ + offset.subrange(0, 3) + ":"@ + offset.subrange(3, 5),
        ),
{
    broadcast use text::group_parts;

    let l = date_line(weekday, date, offset);
    assert(text::contains(l, weekday));
    assert(text::contains(l, date));
    assert(text::contains(l, offset_display(offset)));
}

/// Of the files of a workspace the first that is there is given, under its name, and cut where
/// it is longer than may be; none is given where there is none.
pub proof fn the_first_file_is_given(found: Seq<(Seq<char>, Seq<char>)>, max_chars: int)
    requires
        0 <= max_chars,
    ensures
        found.len() == 0 ==> workspace_context(found, max_chars).len() == 0,
        found.len() > 0 ==> text::contains(workspace_context(found, max_chars), found[0].0),
        found.len() > 0 && found[0].1.len() <= max_chars ==> text::contains(
            workspace_context(found, max_chars),
            text::trim(found[0].1),
        ),
        found.len() > 0 && found[0].1.len() > max_chars ==> read_part(found[0].1, max_chars).take(
            max_chars,
        ) == found[0].1.take(max_chars),
{
    broadcast use text::group_parts;

    if found.len() > 0 {
        let w = workspace_context(found, max_chars);
        assert(text::contains(w, found[0].0));
        assert(text::contains(w, text::trim(read_part(found[0].1, max_chars))));
        if found[0].1.len() > max_chars {
            assert(read_part(found[0].1, max_chars).take(max_chars) =~= found[0].1.take(
                max_chars,
            ));
        }
    }
}

/// No part that is empty is left among the paragraphs, so that none stands alone, and a part
/// that stands alone is all there is.
pub proof fn empty_parts_leave_no_gap(parts: Seq<Seq<char>>, part: Seq<char>, i: int)
    ensures
        0 <= i < present(parts).len() ==> present(parts)[i].len() > 0 && parts.contains(
            present(parts)[i],
        ),
        part.len() > 0 ==> present(parts.push(part)) == present(parts).push(part),
        present(parts.push(Seq::empty())) == present(parts),
{
    let given = |p: Seq<char>| p.len() > 0;
    let kept = parts.filter(given);
    if 0 <= i < kept.len() {
        assert(kept.contains(kept[i]));
        parts.lemma_filter_contains_rev(given, kept[i]);
        assert(given(kept[i]));
    }
    reveal(Seq::filter);
    assert(parts.push(part).drop_last() =~= parts);
    assert(parts.push(Seq::empty()).drop_last() =~= parts);
}

/// A template is filled: what is asked for stands in the place of the goal, and what is known
/// in that of the context, or that there is none; every tool stands in the place of the tools.
/// What is filled in must not itself hold the places that are filled after it.
pub proof fn a_template_is_filled(
    template: Seq<char>,
    goal: Seq<char>,
    context: Seq<char>,
    tools: Seq<ToolDefinitionModel>,
    k: int,
)
    ensures
        ({
            let filled = filled_template(template, goal, context, tools);
            let first = text::replaced(template, "{goal}"@, goal);
            let second = text::replaced(first, "{context}"@, context);
            &&& !text::contains(template, "{goal}"@) && !text::contains(template, "{context}"@)
                && !text::contains(template, "{tools}"@) ==> filled == template
            &&& text::contains(template, "{goal}"@) && !text::contains(first, "{context}"@)
                && !text::contains(first, "{tools}"@) ==> text::contains(filled, goal)
            &&& context.len() > 0 && text::contains(first, "{context}"@) && !text::contains(
                second,
                "{tools}"@,
            ) ==> text::contains(filled, context)
            &&& context.len() == 0 && text::contains(first, "{context}"@) && !text::contains(
                text::replaced(first, "{context}"@, "(none)"@),
                "{tools}"@,
            ) ==> text::contains(filled, "(none)"@)
            &&& context.len() > 0 && text::contains(second, "{tools}"@) && 0 <= k < tools.len()
                ==> text::contains(filled, tools[k].name) && text::contains(
                filled,
                tools[k].description,
            )
        }),
{
    broadcast use text::group_parts;

    reveal_strlit("{goal}");
    reveal_strlit("{context}");
    reveal_strlit("{tools}");
    let shown = if context.len() == 0 {
        "(none)"@
    } else {
        context
    };
    let list = tool_list(tools, Seq::empty(), Seq::empty());
    let first = text::replaced(template, "{goal}"@, goal);
    let second = text::replaced(first, "{context}"@, shown);
    let filled = filled_template(template, goal, context, tools);
    text::what_replaces_stands_in_the_text(template, "{goal}"@, goal);
    text::what_replaces_stands_in_the_text(first, "{context}"@, shown);
    text::what_replaces_stands_in_the_text(second, "{tools}"@, list);
    if 0 <= k < tools.len() && text::contains(second, "{tools}"@) {
        let lines = tool_lines(tools, Seq::empty(), Seq::empty());
        text::parts_stand_in_a_join(lines, "\n"@, k);
        assert(lines[k] == "- "@ + Seq::<char>::empty() + tools[k].name + Seq::<char>::empty()
            + ": "@ + tools[k].description);
        assert(text::contains(lines[k], tools[k].name));
        assert(text::contains(lines[k], tools[k].description));
        text::a_part_of_a_part(list, lines[k], tools[k].name);
        text::a_part_of_a_part(list, lines[k], tools[k].description);
        text::a_part_of_a_part(filled, list, tools[k].name);
        text::a_part_of_a_part(filled, list, tools[k].description);
    }
}

} // verus!

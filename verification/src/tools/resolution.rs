//! Which tools an agent has.
use vstd::prelude::*;

use crate::capability;
use crate::capability::{capability_to_tool_def, CapabilitySpec, SpecModel};
use crate::context::tool_pruning::among;
use crate::llm::{clone_texts, ToolDefinition, ToolDefinitionModel};
use crate::text;
use crate::text::{same_text, text_starts_with};
use crate::tools::defs;
use crate::tools::defs::{interrupt_tool_def, spawn_agent_tool_def};

verus! {

broadcast use crate::seqs::group_views;

/// The tool sets that an agent has.
#[derive(Debug, PartialEq, Eq)]
pub enum Toolsets {
    /// All tools there are.
    All,
    /// The tools of these sets.
    Only(Vec<String>),
}

/// The tool sets that an agent has.
pub enum ToolsetsModel {
    All,
    Only(Seq<Seq<char>>),
}

impl View for Toolsets {
    type V = ToolsetsModel;

    open spec fn view(&self) -> ToolsetsModel {
        match self {
            Toolsets::All => ToolsetsModel::All,
            Toolsets::Only(s) => ToolsetsModel::Only(s.deep_view()),
        }
    }
}

/// The tool sets of an agent: those that it asks for, or all where it asks for none. A
/// child whose parent is limited has those of its parent among them, or all of its
/// parent where it asks for none.
pub open spec fn granted(
    asked: Seq<Seq<char>>,
    parent: Seq<Seq<char>>,
    delegate_depth: u32,
) -> ToolsetsModel {
    if delegate_depth > 0 && parent.len() > 0 {
        if asked.len() == 0 {
            ToolsetsModel::Only(parent)
        } else {
            ToolsetsModel::Only(asked.filter(|t: Seq<char>| parent.contains(t)))
        }
    } else if asked.len() == 0 {
        ToolsetsModel::All
    } else {
        ToolsetsModel::Only(asked)
    }
}

/// The tool sets of an agent.
pub fn resolve_toolsets(asked: &[String], parent: &[String], delegate_depth: u32) -> (r: Toolsets)
    ensures
        r@ == granted(asked.deep_view(), parent.deep_view(), delegate_depth),
{
    if delegate_depth > 0 && parent.len() > 0 {
        if asked.len() == 0 {
            return Toolsets::Only(clone_texts(parent));
        }
        let ghost all = asked.deep_view();
        let ghost bound = parent.deep_view();
        let ghost shared = |t: Seq<char>| bound.contains(t);
        let mut out: Vec<String> = Vec::new();
        let mut i: usize = 0;
        assert(all.take(0).filter(shared) =~= Seq::<Seq<char>>::empty());
        while i < asked.len()
            invariant
                i <= asked@.len(),
                all == asked.deep_view(),
                bound == parent.deep_view(),
                shared == (|t: Seq<char>| bound.contains(t)),
                out.deep_view() == all.take(i as int).filter(shared),
            decreases asked@.len() - i,
        {
            proof {
                reveal(Seq::filter);
                assert(all.take(i + 1).drop_last() =~= all.take(i as int));
                assert(all.take(i + 1).last() == all[i as int]);
            }
            if among(parent, asked[i].as_str()) {
                out.push(asked[i].clone());
            }
            i += 1;
        }
        assert(all.take(i as int) =~= all);
        return Toolsets::Only(out);
    }
    if asked.len() == 0 {
        Toolsets::All
    } else {
        Toolsets::Only(clone_texts(asked))
    }
}

/// A tool that children do not have: they keep out of the memory of the parent, do not
/// talk to the user and plan no work in the name of the parent.
pub open spec fn is_blocked(name: Seq<char>, delegate_depth: u32) -> bool {
    delegate_depth > 0 && {
        ||| text::starts_with(name, "memory"@)
        ||| name == "ask_user"@
        ||| name == "show_message"@
        ||| name == "cronjob_manage"@
    }
}

/// Whether children do not have the tool.
pub fn blocked_for_child(name: &str, delegate_depth: u32) -> (r: bool)
    ensures
        r == is_blocked(name@, delegate_depth),
{
    if delegate_depth == 0 {
        return false;
    }
    text_starts_with(name, "memory") || same_text(name, "ask_user") || same_text(
        name,
        "show_message",
    ) || same_text(name, "cronjob_manage")
}

/// The capabilities that are not blocked, as the model sees them.
pub open spec fn open_tools(
    specs: Seq<SpecModel>,
    delegate_depth: u32,
) -> Seq<ToolDefinitionModel>
    decreases specs.len(),
{
    if specs.len() == 0 {
        Seq::empty()
    } else {
        let rest = open_tools(specs.drop_last(), delegate_depth);
        if is_blocked(specs.last().name, delegate_depth) {
            rest
        } else {
            rest.push(capability::tool_def(specs.last()))
        }
    }
}

/// An agent may have sub-agents.
pub open spec fn may_delegate(
    allow_delegation: bool,
    delegate_depth: u32,
    max_depth: u32,
) -> bool {
    allow_delegation && delegate_depth < max_depth
}

/// The tools of an agent: the capabilities that it may use, the tool that starts
/// sub-agents where it may have some, and always the tool that asks a human.
pub open spec fn tools_of(
    specs: Seq<SpecModel>,
    allow_delegation: bool,
    delegate_depth: u32,
    max_depth: u32,
) -> Seq<ToolDefinitionModel> {
    let tools = open_tools(specs, delegate_depth);
    if may_delegate(allow_delegation, delegate_depth, max_depth) {
        tools.push(defs::spawn_tool()).push(defs::interrupt_tool())
    } else {
        tools.push(defs::interrupt_tool())
    }
}

/// The tools of an agent, out of the capabilities of its tool sets.
pub fn assemble_tools(
    specs: &[CapabilitySpec],
    allow_delegation: bool,
    delegate_depth: u32,
    max_depth: u32,
) -> (r: Vec<ToolDefinition>)
    ensures
        r.deep_view() == tools_of(
            specs.deep_view(),
            allow_delegation,
            delegate_depth,
            max_depth,
        ),
{
    let ghost all = specs.deep_view();
    let mut tools: Vec<ToolDefinition> = Vec::new();
    let mut i: usize = 0;
    assert(all.take(0) =~= Seq::<SpecModel>::empty());
    while i < specs.len()
        invariant
            i <= specs@.len(),
            all == specs.deep_view(),
            tools.deep_view() == open_tools(all.take(i as int), delegate_depth),
        decreases specs@.len() - i,
    {
        proof {
            assert(all.take(i + 1).drop_last() =~= all.take(i as int));
            assert(all.take(i + 1).last() == all[i as int]);
        }
        if !blocked_for_child(specs[i].name.as_str(), delegate_depth) {
            tools.push(capability_to_tool_def(&specs[i]));
        }
        i += 1;
    }
    assert(all.take(i as int) =~= all);
    if allow_delegation && delegate_depth < max_depth {
        tools.push(spawn_agent_tool_def());
    }
    tools.push(interrupt_tool_def());
    tools
}

/// Children never gain tools that the parent lacks: where the parent is limited to some
/// tool sets, a child has none but those, whatever it asks for.
pub proof fn children_gain_no_toolsets(
    asked: Seq<Seq<char>>,
    parent: Seq<Seq<char>>,
    delegate_depth: u32,
    toolset: Seq<char>,
)
    requires
        delegate_depth > 0,
        parent.len() > 0,
    ensures
        granted(asked, parent, delegate_depth) matches ToolsetsModel::Only(s)
            && (s.contains(toolset) ==> parent.contains(toolset) && (asked.len() == 0
            || asked.contains(toolset))),
{
    if asked.len() > 0 {
        let shared = |t: Seq<char>| parent.contains(t);
        let s = asked.filter(shared);
        if s.contains(toolset) {
            asked.lemma_filter_contains_rev(shared, toolset);
            let k = choose|k: int| 0 <= k < s.len() && s[k] == toolset;
            assert(shared(s[k]));
        }
    }
}

/// No capability that is blocked for children is among the tools of a child.
pub proof fn children_have_no_blocked_tools(
    specs: Seq<SpecModel>,
    delegate_depth: u32,
    i: int,
)
    requires
        0 <= i < open_tools(specs, delegate_depth).len(),
    ensures
        !is_blocked(open_tools(specs, delegate_depth)[i].name, delegate_depth),
    decreases specs.len(),
{
    let rest = open_tools(specs.drop_last(), delegate_depth);
    if i < rest.len() {
        children_have_no_blocked_tools(specs.drop_last(), delegate_depth, i);
    }
}

/// An agent without a parent has the tool sets that it asks for, or all of them; a child has
/// those of its parent, and of these, where it asks for any, exactly the ones that it asks
/// for.
pub proof fn who_has_which_toolsets(
    asked: Seq<Seq<char>>,
    parent: Seq<Seq<char>>,
    delegate_depth: u32,
    toolset: Seq<char>,
)
    ensures
        ({
            let g = granted(asked, parent, delegate_depth);
            let child = delegate_depth > 0 && parent.len() > 0;
            &&& !child && asked.len() == 0 ==> g is All
            &&& !child && asked.len() > 0 ==> g == ToolsetsModel::Only(asked)
            &&& child && asked.len() == 0 ==> g == ToolsetsModel::Only(parent)
            &&& child && asked.len() > 0 ==> (g matches ToolsetsModel::Only(s) && (s.contains(
                toolset,
            ) == (asked.contains(toolset) && parent.contains(toolset))))
        }),
{
    if delegate_depth > 0 && parent.len() > 0 && asked.len() > 0 {
        let shared = |t: Seq<char>| parent.contains(t);
        let s = asked.filter(shared);
        if s.contains(toolset) {
            asked.lemma_filter_contains_rev(shared, toolset);
            let k = choose|k: int| 0 <= k < s.len() && s[k] == toolset;
            assert(shared(s[k]));
        }
        if asked.contains(toolset) && parent.contains(toolset) {
            let k = choose|k: int| 0 <= k < asked.len() && asked[k] == toolset;
            assert(shared(asked[k]));
            assert(s.contains(asked[k]));
        }
    }
}

/// A child has no tool that remembers, asks or shows something to the user, or plans jobs; an
/// agent at the top has every tool.
pub proof fn which_tools_a_child_lacks(name: Seq<char>, delegate_depth: u32)
    ensures
        !is_blocked(name, 0),
        delegate_depth > 0 ==> is_blocked(name, delegate_depth) == (text::starts_with(
            name,
            "memory"@,
        ) || name == "ask_user"@ || name == "show_message"@ || name == "cronjob_manage"@),
{
}

/// An agent is offered every tool that it may have, with its name, its description and its
/// parameters, and no other.
pub proof fn every_open_tool_is_offered(
    specs: Seq<SpecModel>,
    delegate_depth: u32,
    t: ToolDefinitionModel,
)
    ensures
        open_tools(specs, delegate_depth).contains(t) == exists|k: int|
            {
                &&& 0 <= k < specs.len()
                &&& !is_blocked((#[trigger] specs[k]).name, delegate_depth)
                &&& t.name == specs[k].name
                &&& t.description == specs[k].description
                &&& t.parameters == specs[k].input_schema
            },
    decreases specs.len(),
{
    if specs.len() > 0 {
        let front = specs.drop_last();
        let rest = open_tools(front, delegate_depth);
        let all = open_tools(specs, delegate_depth);
        every_open_tool_is_offered(front, delegate_depth, t);
        if all.contains(t) {
            let i = choose|i: int| 0 <= i < all.len() && all[i] == t;
            if i < rest.len() {
                assert(rest[i] == t);
                let k = choose|k: int|
                    {
                        &&& 0 <= k < front.len()
                        &&& !is_blocked((#[trigger] front[k]).name, delegate_depth)
                        &&& t.name == front[k].name
                        &&& t.description == front[k].description
                        &&& t.parameters == front[k].input_schema
                    };
                assert(specs[k] == front[k]);
            } else {
                assert(!is_blocked(specs[specs.len() - 1].name, delegate_depth));
            }
        }
        if exists|k: int|
            {
                &&& 0 <= k < specs.len()
                &&& !is_blocked((#[trigger] specs[k]).name, delegate_depth)
                &&& t.name == specs[k].name
                &&& t.description == specs[k].description
                &&& t.parameters == specs[k].input_schema
            } {
            let k = choose|k: int|
                {
                    &&& 0 <= k < specs.len()
                    &&& !is_blocked((#[trigger] specs[k]).name, delegate_depth)
                    &&& t.name == specs[k].name
                    &&& t.description == specs[k].description
                    &&& t.parameters == specs[k].input_schema
                };
            if k < front.len() {
                assert(front[k] == specs[k]);
                let i = choose|i: int| 0 <= i < rest.len() && rest[i] == t;
                assert(all[i] == t);
            } else {
                assert(all[all.len() - 1] == t);
            }
        }
    }
}

/// Behind its other tools every agent can ask a human, and it can start sub-agents exactly
/// where it is allowed to and is not too deep for it.
pub proof fn who_can_delegate(
    specs: Seq<SpecModel>,
    allow_delegation: bool,
    delegate_depth: u32,
    max_depth: u32,
)
    ensures
        ({
            let tools = tools_of(specs, allow_delegation, delegate_depth, max_depth);
            let others = open_tools(specs, delegate_depth);
            let n = others.len() as int;
            &&& tools.len() > n
            &&& tools.take(n) == others
            &&& tools.last().name == "interrupt"@
            &&& allow_delegation && delegate_depth < max_depth ==> tools.len() == n + 2
                && tools[n].name == "spawn_agent"@
            &&& !allow_delegation || delegate_depth >= max_depth ==> tools.len() == n + 1
        }),
{
    let others = open_tools(specs, delegate_depth);
    assert(tools_of(specs, allow_delegation, delegate_depth, max_depth).take(others.len() as int)
        =~= others);
}

} // verus!

//! What a call of the `spawn_agent` tool leads to.
use vstd::prelude::*;

use crate::delegation::listing::is_child;
use crate::delegation::spawn_args;
use crate::delegation::spawn_args::{SpawnArgs, SpawnModel};
use crate::errors::LoomError;
use crate::ids;
use crate::ids::parse_id;
use crate::json;
use crate::json::{add_field, Json, JsonModel};
use crate::lifecycle::{AgentHandle, HandleModel};
use crate::text;
use crate::text::{decimal_text, same_text};

verus! {

broadcast use {crate::seqs::group_views, crate::json::fields_model_push};

/// What a call of the tool leads to.
#[derive(Debug, PartialEq, Eq)]
pub enum SpawnPlan {
    /// The call is answered at once.
    Reply(Json),
    /// The sub-agents are listed.
    List,
    /// A sub-agent is stopped.
    Stop,
    /// A sub-agent is sent a message.
    Steer,
    /// The tasks are started and not waited for.
    Background { args: SpawnArgs, child_depth: u32 },
    /// The tasks are started and waited for; `fell_back` says that they were to run in
    /// the background.
    Sync { args: SpawnArgs, child_depth: u32, fell_back: bool },
}

/// What a call of the tool leads to.
pub enum PlanModel {
    Reply(JsonModel),
    List,
    Stop,
    Steer,
    Background { args: SpawnModel, child_depth: int },
    Sync { args: SpawnModel, child_depth: int, fell_back: bool },
}

impl View for SpawnPlan {
    type V = PlanModel;

    open spec fn view(&self) -> PlanModel {
        match self {
            SpawnPlan::Reply(j) => PlanModel::Reply(j@),
            SpawnPlan::List => PlanModel::List,
            SpawnPlan::Stop => PlanModel::Stop,
            SpawnPlan::Steer => PlanModel::Steer,
            SpawnPlan::Background { args, child_depth } => PlanModel::Background {
                args: args@,
                child_depth: *child_depth as int,
            },
            SpawnPlan::Sync { args, child_depth, fell_back } => PlanModel::Sync {
                args: args@,
                child_depth: *child_depth as int,
                fell_back: *fell_back,
            },
        }
    }
}

/// The answer to a call that would go too deep.
pub open spec fn too_deep(child_depth: int, max_depth: u32) -> JsonModel {
    json::error_model(
        "delegation depth limit reached (depth="@ + text::decimal(child_depth as nat) + ", max="@
            + text::decimal(max_depth as nat) + ")"@,
    )
}

/// What a call leads to: a mistake is answered, a control action is taken, sub-agents are
/// started unless that would go too deep. Without a session to report to, tasks that are
/// to run in the background are waited for.
pub open spec fn plan(
    args: JsonModel,
    is_top_level: bool,
    delegate_depth: u32,
    max_depth: u32,
    has_session: bool,
) -> PlanModel {
    match spawn_args::asked(args, is_top_level) {
        Err(e) => PlanModel::Reply(e),
        Ok(s) => if s.action == "list"@ {
            PlanModel::List
        } else if s.action == "stop"@ {
            PlanModel::Stop
        } else if s.action == "steer"@ {
            PlanModel::Steer
        } else if delegate_depth + 1 > max_depth {
            PlanModel::Reply(too_deep(delegate_depth + 1, max_depth))
        } else if s.background && has_session {
            PlanModel::Background { args: s, child_depth: delegate_depth + 1 }
        } else {
            PlanModel::Sync {
                args: s,
                child_depth: delegate_depth + 1,
                fell_back: s.background,
            }
        },
    }
}

/// What a call of the tool leads to.
pub fn plan_spawn(
    args: &Json,
    is_top_level: bool,
    delegate_depth: u32,
    max_depth: u32,
    has_session: bool,
) -> (r: SpawnPlan)
    requires
        delegate_depth < u32::MAX,
    ensures
        r@ == plan(args@, is_top_level, delegate_depth, max_depth, has_session),
{
    let parsed = match SpawnArgs::from_value(args, is_top_level) {
        Ok(p) => p,
        Err(e) => {
            return SpawnPlan::Reply(e);
        },
    };
    if same_text(parsed.action.as_str(), "list") {
        return SpawnPlan::List;
    }
    if same_text(parsed.action.as_str(), "stop") {
        return SpawnPlan::Stop;
    }
    if same_text(parsed.action.as_str(), "steer") {
        return SpawnPlan::Steer;
    }
    let child_depth: u32 = delegate_depth + 1;
    if child_depth > max_depth {
        let mut s = String::from_str("delegation depth limit reached (depth=");
        s.append(decimal_text(child_depth as u64).as_str());
        s.append(", max=");
        s.append(decimal_text(max_depth as u64).as_str());
        s.append(")");
        return SpawnPlan::Reply(Json::error(s.as_str()));
    }
    if parsed.background && has_session {
        return SpawnPlan::Background { args: parsed, child_depth };
    }
    let fell_back = parsed.background;
    SpawnPlan::Sync { args: parsed, child_depth, fell_back }
}

/// No sub-agent is started deeper than the limit allows, and each is started one level
/// below the agent that asks.
pub proof fn depth_is_bounded(
    args: JsonModel,
    is_top_level: bool,
    delegate_depth: u32,
    max_depth: u32,
    has_session: bool,
)
    ensures
        match plan(args, is_top_level, delegate_depth, max_depth, has_session) {
            PlanModel::Background { child_depth, .. } => child_depth == delegate_depth + 1
                && child_depth <= max_depth && is_top_level && has_session,
            PlanModel::Sync { child_depth, .. } => child_depth == delegate_depth + 1
                && child_depth <= max_depth,
            _ => true,
        },
{
}

// ---------- stopping and steering ----------

/// Whether a sub-agent may be acted on.
#[derive(Debug, PartialEq, Eq)]
pub enum ControlPlan {
    /// The call is answered at once.
    Refuse(Json),
    /// The sub-agent is acted on; the text is its identifier as it was given.
    Proceed { id: u128, subagent_id: String },
}

/// The agent is a child of the other.
pub open spec fn owns(agents: Seq<HandleModel>, id: u128, parent: u128) -> bool {
    exists|i: int|
        0 <= i < agents.len() && (#[trigger] agents[i]).agent_id == id
            && agents[i].parent_agent_id == Some(parent)
}

/// Whether the agent is a child of the other.
pub fn is_owned(agents: &[AgentHandle], id: u128, parent: u128) -> (r: bool)
    ensures
        r == owns(agents.deep_view(), id, parent),
{
    let ghost all = agents.deep_view();
    let mut i: usize = 0;
    while i < agents.len()
        invariant
            i <= agents@.len(),
            all == agents.deep_view(),
            forall|j: int|
                0 <= j < i ==> !((#[trigger] all[j]).agent_id == id && all[j].parent_agent_id
                    == Some(parent)),
        decreases agents@.len() - i,
    {
        if agents[i].agent_id == id && is_child(&agents[i], parent) {
            assert(all[i as int].agent_id == id);
            return true;
        }
        i += 1;
    }
    false
}

/// The answer to a call on an agent that is not a child of the one that calls.
pub open spec fn not_a_child(subagent_id: Seq<char>) -> JsonModel {
    json::error_model(
        "agent "@ + subagent_id + " is not a child of the current agent"@,
    )
}

/// The answer to a call on an agent that is not a child of the one that calls.
fn refuse(subagent_id: &str) -> (r: Json)
    ensures
        r@ == not_a_child(subagent_id@),
{
    let mut s = String::from_str("agent ");
    s.append(subagent_id);
    s.append(" is not a child of the current agent");
    Json::error(s.as_str())
}

/// What is wrong with the identifier of a call, if anything; `action` is what is to be
/// done.
pub open spec fn id_error(args: JsonModel, action: Seq<char>) -> Option<Seq<char>> {
    match args.at("subagent_id"@).as_str() {
        None => Some("subagent_id is required for action="@ + action),
        Some(s) => if ids::id_parsed(s) is None {
            Some("invalid subagent_id: "@ + s)
        } else {
            None
        },
    }
}

/// What comes of a call on a sub-agent whose identifier is right: it may be acted on if
/// it is a child of the agent that calls.
pub open spec fn is_control_plan(
    p: ControlPlan,
    args: JsonModel,
    agents: Seq<HandleModel>,
    current: u128,
) -> bool {
    let given = args.at("subagent_id"@).as_str()->Some_0;
    let id = ids::id_parsed(given)->Some_0;
    match p {
        ControlPlan::Refuse(j) => !owns(agents, id, current) && j@ == not_a_child(given),
        ControlPlan::Proceed { id: i, subagent_id } => owns(agents, id, current) && i == id
            && subagent_id@ == given,
    }
}

/// The identifier of a call, or what is wrong with it.
fn read_id(args: &Json, action: &str) -> (r: Result<(u128, String), LoomError>)
    ensures
        match r {
            Ok((id, s)) => id_error(args@, action@) is None && args@.at(
                "subagent_id"@,
            ).as_str() == Some(s@) && ids::id_parsed(s@) == Some(id),
            Err(e) => e is Other && id_error(args@, action@) == Some(e.text()),
        },
{
    match args.str_field("subagent_id") {
        None => {
            let mut s = String::from_str("subagent_id is required for action=");
            s.append(action);
            Err(LoomError::Other(s))
        },
        Some(given) => match parse_id(given) {
            Some(id) => Ok((id, String::from_str(given))),
            None => {
                let mut s = String::from_str("invalid subagent_id: ");
                s.append(given);
                Err(LoomError::Other(s))
            },
        },
    }
}

/// Whether a sub-agent is stopped: only a child of the agent that calls.
pub fn plan_stop(args: &Json, current: u128, agents: &[AgentHandle]) -> (r: Result<
    ControlPlan,
    LoomError,
>)
    ensures
        match r {
            Ok(p) => id_error(args@, "stop"@) is None && is_control_plan(
                p,
                args@,
                agents.deep_view(),
                current,
            ),
            Err(e) => e is Other && id_error(args@, "stop"@) == Some(e.text()),
        },
{
    let (id, subagent_id) = match read_id(args, "stop") {
        Ok(p) => p,
        Err(e) => {
            return Err(e);
        },
    };
    if !is_owned(agents, id, current) {
        return Ok(ControlPlan::Refuse(refuse(subagent_id.as_str())));
    }
    Ok(ControlPlan::Proceed { id, subagent_id })
}

/// The answer to a call that stopped a sub-agent.
pub open spec fn stopped(subagent_id: Seq<char>) -> JsonModel {
    JsonModel::Object(seq![("stopped"@, JsonModel::Str(subagent_id))])
}

/// The answer to a call that stopped a sub-agent.
pub fn stop_reply(subagent_id: &str) -> (r: Json)
    ensures
        r@ == stopped(subagent_id@),
{
    let mut o: Vec<(String, Json)> = Vec::new();
    add_field(&mut o, "stopped", Json::string(subagent_id));
    let r = Json::object(o);
    assert(r@->Object_0 =~= stopped(subagent_id@)->Object_0);
    r
}

/// What is wrong with a call that steers a sub-agent, if anything.
pub open spec fn steer_error(args: JsonModel) -> Option<Seq<char>> {
    match id_error(args, "steer"@) {
        Some(e) => Some(e),
        None => if args.at("message"@).as_str() is None {
            Some("message is required for action=steer"@)
        } else {
            None
        },
    }
}

/// The text that a sub-agent is sent.
pub open spec fn steer_text(message: Seq<char>) -> Seq<char> {
    "[steer from parent] "@ + message
}

/// Whether a sub-agent is sent a message, and the text: only a child of the agent that
/// calls.
pub fn plan_steer(args: &Json, current: u128, agents: &[AgentHandle]) -> (r: Result<
    (ControlPlan, String),
    LoomError,
>)
    ensures
        match r {
            Ok((p, t)) => steer_error(args@) is None && is_control_plan(
                p,
                args@,
                agents.deep_view(),
                current,
            ) && t@ == steer_text(args@.at("message"@).as_str()->Some_0),
            Err(e) => e is Other && steer_error(args@) == Some(e.text()),
        },
{
    let (id, subagent_id) = match read_id(args, "steer") {
        Ok(p) => p,
        Err(e) => {
            return Err(e);
        },
    };
    let message = match args.str_field("message") {
        Some(m) => m,
        None => {
            return Err(LoomError::Other(String::from_str("message is required for action=steer")));
        },
    };
    let mut t = String::from_str("[steer from parent] ");
    t.append(message);
    if !is_owned(agents, id, current) {
        return Ok((ControlPlan::Refuse(refuse(subagent_id.as_str())), t));
    }
    Ok((ControlPlan::Proceed { id, subagent_id }, t))
}

/// The answer to a call that sent a sub-agent a message, or failed to.
pub open spec fn steered(subagent_id: Seq<char>, error: Option<LoomError>) -> JsonModel {
    match error {
        None => JsonModel::Object(
            seq![
                ("status"@, JsonModel::Str("message_sent"@)),
                ("subagent_id"@, JsonModel::Str(subagent_id)),
            ],
        ),
        Some(e) => json::error_model("steer failed: "@ + e.text()),
    }
}

/// The answer to a call that sent a sub-agent a message, or failed to.
pub fn steer_reply(subagent_id: &str, error: Option<LoomError>) -> (r: Json)
    ensures
        r@ == steered(subagent_id@, error),
{
    match error {
        None => {
            let mut o: Vec<(String, Json)> = Vec::new();
            add_field(&mut o, "status", Json::string("message_sent"));
            add_field(&mut o, "subagent_id", Json::string(subagent_id));
            let r = Json::object(o);
            assert(r@->Object_0 =~= steered(subagent_id@, None)->Object_0);
            r
        },
        Some(e) => {
            let mut s = String::from_str("steer failed: ");
            s.append(e.to_text().as_str());
            Json::error(s.as_str())
        },
    }
}

/// What a call of the tool leads to: one that is not understood is answered with what is
/// wrong; sub-agents are listed, stopped or steered where that is asked for; tasks are
/// refused where the agent is too deep, are sent into the background where that is asked for
/// and there is a session to deliver their results to, and are waited for otherwise. The
/// tasks are those that were asked for.
pub proof fn what_a_spawn_leads_to(
    args: JsonModel,
    is_top_level: bool,
    delegate_depth: u32,
    max_depth: u32,
    has_session: bool,
)
    ensures
        ({
            let p = plan(args, is_top_level, delegate_depth, max_depth, has_session);
            match spawn_args::asked(args, is_top_level) {
                Err(e) => p == PlanModel::Reply(e),
                Ok(s) => {
                    let spawns = s.action != "list"@ && s.action != "stop"@ && s.action
                        != "steer"@;
                    &&& s.action == "list"@ ==> p is List
                    &&& s.action == "stop"@ ==> p is Stop
                    &&& s.action == "steer"@ ==> p is Steer
                    &&& spawns && delegate_depth >= max_depth ==> (p matches PlanModel::Reply(j)
                        && j.get("error"@) is Some)
                    &&& spawns && delegate_depth < max_depth && s.background && has_session ==> p
                        == (PlanModel::Background { args: s, child_depth: delegate_depth + 1 })
                    &&& spawns && delegate_depth < max_depth && s.background && !has_session ==> p
                        == (PlanModel::Sync {
                        args: s,
                        child_depth: delegate_depth + 1,
                        fell_back: true,
                    })
                    &&& spawns && delegate_depth < max_depth && !s.background ==> p == (
                    PlanModel::Sync {
                        args: s,
                        child_depth: delegate_depth + 1,
                        fell_back: false,
                    })
                },
            }
        }),
{
    reveal_strlit("list");
    reveal_strlit("stop");
    reveal_strlit("steer");
    assert("list"@.len() == 4);
    assert("stop"@.len() == 4);
    assert("steer"@.len() == 5);
    assert("list"@[0] == 'l');
    assert("stop"@[0] == 's');
    let j = too_deep(delegate_depth + 1, max_depth);
    json::a_field_is_found(j->Object_0, 0);
}

/// An agent is stopped or steered only by its parent, under the identifier that is given, and
/// steered with what is said; whoever is no parent is told so. A call without an identifier,
/// with one that is none, or without a message where one is sent, is refused.
pub proof fn only_a_parent_controls(
    p: ControlPlan,
    args: JsonModel,
    agents: Seq<HandleModel>,
    current: u128,
    action: Seq<char>,
)
    requires
        is_control_plan(p, args, agents, current),
        id_error(args, action) is None,
    ensures
        ({
            let given = args.at("subagent_id"@)->Str_0;
            let mine = exists|i: int|
                0 <= i < agents.len() && Some((#[trigger] agents[i]).agent_id) == ids::id_parsed(
                    given,
                ) && agents[i].parent_agent_id == Some(current);
            &&& args.at("subagent_id"@) is Str
            &&& p is Proceed == mine
            &&& p matches ControlPlan::Proceed { id, subagent_id } ==> Some(id) == ids::id_parsed(
                given,
            ) && subagent_id@ == given
            &&& p matches ControlPlan::Refuse(j) ==> (j@.get("error"@) matches Some(
                JsonModel::Str(e),
            ) && text::contains(e, given))
        }),
{
    broadcast use text::group_parts;

    let given = args.at("subagent_id"@)->Str_0;
    assert(args.at("subagent_id"@).as_str() == Some(given));
    let id = ids::id_parsed(given)->Some_0;
    assert(ids::id_parsed(given) == Some(id));
    json::a_field_is_found(not_a_child(given)->Object_0, 0);
    assert(text::contains(
        "agent "@ + given + " is not a child of the current agent"@,
        given,
    ));
}

/// Who is to be stopped or steered has to be said, and what is to be said to them.
pub proof fn what_has_to_be_given(args: JsonModel, action: Seq<char>, message: Seq<char>)
    ensures
        !(args.at("subagent_id"@) is Str) ==> id_error(args, action) is Some && steer_error(args)
            is Some,
        args.at("subagent_id"@) matches JsonModel::Str(s) ==> (ids::id_parsed(s) is None
            == id_error(args, action) is Some),
        args.at("subagent_id"@) matches JsonModel::Str(s) ==> (steer_error(args) is None == (
        ids::id_parsed(s) is Some && args.at("message"@) is Str)),
        text::ends_with(steer_text(message), message),
{
    let t = steer_text(message);
    assert(t.subrange(t.len() - message.len(), t.len() as int) =~= message);
}

/// Who has stopped or steered an agent is told of which; a failure is told as an error.
pub proof fn control_is_confirmed(subagent_id: Seq<char>, e: LoomError)
    ensures
        stopped(subagent_id).get("stopped"@) == Some(JsonModel::Str(subagent_id)),
        steered(subagent_id, None).get("subagent_id"@) == Some(JsonModel::Str(subagent_id)),
        steered(subagent_id, None).get("status"@) == Some(JsonModel::Str("message_sent"@)),
        steered(subagent_id, Some(e)).get("error"@) matches Some(JsonModel::Str(m))
            && text::ends_with(m, e.text()),
{
    json::a_field_is_found(stopped(subagent_id)->Object_0, 0);
    let o = steered(subagent_id, None)->Object_0;
    reveal_strlit("status");
    reveal_strlit("subagent_id");
    assert("status"@.len() == 6);
    assert("subagent_id"@.len() == 11);
    json::a_field_is_found(o, 0);
    json::a_field_is_found(o, 1);
    json::a_field_is_found(steered(subagent_id, Some(e))->Object_0, 0);
    let m = "steer failed: "@ + e.text();
    assert(m.subrange(m.len() - e.text().len(), m.len() as int) =~= e.text());
}

} // verus!

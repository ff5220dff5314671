//! How far agents are kept apart, and what an agent is started with.
use vstd::prelude::*;

use crate::clock::Timestamp;
use crate::json::{Json, JsonModel};
use crate::llm::{clone_opt, clone_texts};
use crate::scope::{clone_scope, MemoryScope, ScopeModel};
use crate::text::same_text;

verus! {

/// How far an agent is kept apart.
#[derive(Debug, Clone, Copy, PartialEq, Eq, Hash, Structural)]
pub enum IsolationLevel {
    /// A task of the same process.
    Coroutine,
    /// A process of its own.
    Process,
    /// A container of its own.
    Container,
    /// A sandbox.
    Wasm,
}

impl Default for IsolationLevel {
    fn default() -> (r: Self)
        ensures
            r == IsolationLevel::Coroutine,
    {
        IsolationLevel::Coroutine
    }
}

/// The name of a level.
pub open spec fn level_name(level: IsolationLevel) -> Seq<char> {
    match level {
        IsolationLevel::Coroutine => "coroutine"@,
        IsolationLevel::Process => "process"@,
        IsolationLevel::Container => "container"@,
        IsolationLevel::Wasm => "wasm"@,
    }
}

/// The level of a name.
pub open spec fn level_of(name: Seq<char>) -> Option<IsolationLevel> {
    if name == "coroutine"@ {
        Some(IsolationLevel::Coroutine)
    } else if name == "process"@ {
        Some(IsolationLevel::Process)
    } else if name == "container"@ {
        Some(IsolationLevel::Container)
    } else if name == "wasm"@ {
        Some(IsolationLevel::Wasm)
    } else {
        None
    }
}

impl IsolationLevel {
    /// The name of the level.
    pub fn name(&self) -> (r: &'static str)
        ensures
            r@ == level_name(*self),
    {
        match self {
            IsolationLevel::Coroutine => "coroutine",
            IsolationLevel::Process => "process",
            IsolationLevel::Container => "container",
            IsolationLevel::Wasm => "wasm",
        }
    }

    /// The level of a name, or the error that there is none.
    pub fn parse(s: &str) -> (r: Result<Self, String>)
        ensures
            match r {
                Ok(level) => level_of(s@) == Some(level),
                Err(e) => level_of(s@) is None && e@ == "unknown isolation level: "@ + s@,
            },
    {
        if same_text(s, "coroutine") {
            Ok(IsolationLevel::Coroutine)
        } else if same_text(s, "process") {
            Ok(IsolationLevel::Process)
        } else if same_text(s, "container") {
            Ok(IsolationLevel::Container)
        } else if same_text(s, "wasm") {
            Ok(IsolationLevel::Wasm)
        } else {
            let mut e = String::from_str("unknown isolation level: ");
            e.append(s);
            Err(e)
        }
    }

    /// The level of an optional name; the default where there is none or it is not
    /// known.
    pub fn parse_or_default(s: &Option<String>) -> (r: Self)
        ensures
            r == match s.deep_view() {
                Some(name) => match level_of(name) {
                    Some(level) => level,
                    None => IsolationLevel::Coroutine,
                },
                None => IsolationLevel::Coroutine,
            },
    {
        match s {
            Some(name) => match IsolationLevel::parse(name.as_str()) {
                Ok(level) => level,
                Err(_) => IsolationLevel::Coroutine,
            },
            None => IsolationLevel::Coroutine,
        }
    }
}

/// Every level is read back from its name.
pub proof fn level_names_are_read_back(level: IsolationLevel)
    ensures
        level_of(level_name(level)) == Some(level),
{
    reveal_strlit("coroutine");
    reveal_strlit("process");
    reveal_strlit("container");
    reveal_strlit("wasm");
    assert("coroutine"@[1] != "container"@[2]);
    assert("coroutine"@[2] != "container"@[2]);
    assert("coroutine"@.len() == 9 && "container"@.len() == 9);
    assert("process"@.len() == 7 && "wasm"@.len() == 4);
}

/// The level that an agent calls for: the strongest that one of its traits asks for.
pub open spec fn called_for(
    requires_fs: bool,
    requires_network: bool,
    untrusted: bool,
) -> IsolationLevel {
    if untrusted {
        IsolationLevel::Wasm
    } else if requires_network {
        IsolationLevel::Container
    } else if requires_fs {
        IsolationLevel::Process
    } else {
        IsolationLevel::Coroutine
    }
}

/// The level that an agent calls for.
pub fn select_isolation(
    requires_fs: bool,
    requires_network: bool,
    untrusted: bool,
) -> (r: IsolationLevel)
    ensures
        r == called_for(requires_fs, requires_network, untrusted),
{
    if untrusted {
        IsolationLevel::Wasm
    } else if requires_network {
        IsolationLevel::Container
    } else if requires_fs {
        IsolationLevel::Process
    } else {
        IsolationLevel::Coroutine
    }
}

/// Whether an agent is alive.
#[derive(Debug, PartialEq, Eq)]
pub struct HealthStatus {
    pub alive: bool,
    pub last_heartbeat: Option<Timestamp>,
    pub diagnostic: Option<String>,
}

/// What an agent is doing, as its parent samples it.
#[derive(Debug, PartialEq, Eq)]
pub struct ActivitySummary {
    /// The rounds that it has completed.
    pub iterations: u64,
    /// The calls of the model that it has completed.
    pub api_call_count: u64,
    /// The tool that it is running.
    pub current_tool: Option<String>,
    /// When it was last active.
    pub last_activity: Option<Timestamp>,
}

impl Clone for ActivitySummary {
    fn clone(&self) -> (r: Self)
        ensures
            r == *self,
    {
        ActivitySummary {
            iterations: self.iterations,
            api_call_count: self.api_call_count,
            current_tool: clone_opt(&self.current_tool),
            last_activity: self.last_activity,
        }
    }
}

impl Default for ActivitySummary {
    fn default() -> (r: Self)
        ensures
            r.iterations == 0,
            r.api_call_count == 0,
            r.current_tool is None,
            r.last_activity is None,
    {
        ActivitySummary {
            iterations: 0,
            api_call_count: 0,
            current_tool: None,
            last_activity: None,
        }
    }
}

/// What an agent is started with.
#[derive(Debug, PartialEq, Eq)]
pub struct AgentSpec {
    pub agent_id: u128,
    pub capability_id: Option<u128>,
    pub goal: String,
    pub context: String,
    pub toolsets: Vec<String>,
    pub isolation: IsolationLevel,
    pub timeout_ms: Option<u64>,
    pub config: Json,
    pub parent_agent_id: Option<u128>,
    pub delegate_depth: u32,
    pub scope: Option<MemoryScope>,
    pub parent_toolsets: Vec<String>,
    pub session_id: Option<String>,
}

/// What an agent is asked to be launched with.
#[derive(Debug, PartialEq, Eq)]
pub struct AgentLaunchRequest {
    pub capability_id: Option<u128>,
    pub goal: String,
    pub context: String,
    pub toolsets: Vec<String>,
    pub isolation: IsolationLevel,
    pub timeout_ms: Option<u64>,
    pub parent_agent_id: Option<u128>,
    pub config: Json,
    pub delegate_depth: u32,
    pub scope: Option<MemoryScope>,
    pub parent_toolsets: Vec<String>,
    pub session_id: Option<String>,
}

/// What an agent is asked to be launched with.
#[verifier::ext_equal]
pub struct RequestModel {
    pub capability_id: Option<u128>,
    pub goal: Seq<char>,
    pub context: Seq<char>,
    pub toolsets: Seq<Seq<char>>,
    pub isolation: IsolationLevel,
    pub timeout_ms: Option<u64>,
    pub parent_agent_id: Option<u128>,
    pub config: JsonModel,
    pub delegate_depth: u32,
    pub scope: Option<ScopeModel>,
    pub parent_toolsets: Seq<Seq<char>>,
    pub session_id: Option<Seq<char>>,
}

impl View for AgentLaunchRequest {
    type V = RequestModel;

    open spec fn view(&self) -> RequestModel {
        RequestModel {
            capability_id: self.capability_id,
            goal: self.goal@,
            context: self.context@,
            toolsets: self.toolsets.deep_view(),
            isolation: self.isolation,
            timeout_ms: self.timeout_ms,
            parent_agent_id: self.parent_agent_id,
            config: self.config@,
            delegate_depth: self.delegate_depth,
            scope: self.scope.deep_view(),
            parent_toolsets: self.parent_toolsets.deep_view(),
            session_id: self.session_id.deep_view(),
        }
    }
}

impl Default for AgentLaunchRequest {
    fn default() -> (r: Self)
        ensures
            r.capability_id is None,
            r.goal@.len() == 0,
            r.context@.len() == 0,
            r.toolsets@.len() == 0,
            r.isolation == IsolationLevel::Coroutine,
            r.timeout_ms is None,
            r.parent_agent_id is None,
            r.config@ is Null,
            r.delegate_depth == 0,
            r.scope is None,
            r.parent_toolsets@.len() == 0,
            r.session_id is None,
    {
        AgentLaunchRequest {
            capability_id: None,
            goal: String::new(),
            context: String::new(),
            toolsets: Vec::new(),
            isolation: IsolationLevel::Coroutine,
            timeout_ms: None,
            parent_agent_id: None,
            config: Json::Null,
            delegate_depth: 0,
            scope: None,
            parent_toolsets: Vec::new(),
            session_id: None,
        }
    }
}

/// A flag of the configuration of an agent; unset where it is not there.
pub open spec fn config_flag(config: JsonModel, name: Seq<char>) -> bool {
    config.at(name).as_bool() == Some(true)
}

/// A flag of the configuration of an agent.
fn flag(config: &Json, name: &str) -> (r: bool)
    ensures
        r == config_flag(config@, name@),
{
    match config.get(name) {
        Some(v) => match v.as_bool() {
            Some(b) => b,
            None => false,
        },
        None => false,
    }
}

/// The level at which an agent is launched: the one that is asked for, or the one
/// that its configuration calls for where only the weakest is asked for and there is a
/// configuration.
pub open spec fn launch_level(
    asked: IsolationLevel,
    config: JsonModel,
) -> IsolationLevel {
    if asked == IsolationLevel::Coroutine && config is Object {
        called_for(
            config_flag(config, "requires_fs"@),
            config_flag(config, "requires_network"@),
            config_flag(config, "untrusted"@),
        )
    } else {
        asked
    }
}

/// What the agent with that identifier is started with.
pub fn spec_of_request(req: &AgentLaunchRequest, agent_id: u128) -> (r: AgentSpec)
    ensures
        r.agent_id == agent_id,
        r.capability_id == req.capability_id,
        r.goal@ == req.goal@,
        r.context@ == req.context@,
        r.toolsets.deep_view() == req.toolsets.deep_view(),
        r.isolation == launch_level(req.isolation, req.config@),
        r.timeout_ms == req.timeout_ms,
        r.config@ == req.config@,
        r.parent_agent_id == req.parent_agent_id,
        r.delegate_depth == req.delegate_depth,
        r.scope.deep_view() == req.scope.deep_view(),
        r.parent_toolsets.deep_view() == req.parent_toolsets.deep_view(),
        r.session_id.deep_view() == req.session_id.deep_view(),
{
    let is_object = match &req.config {
        Json::Object(_) => true,
        _ => false,
    };
    let isolation = if req.isolation == IsolationLevel::Coroutine && is_object {
        select_isolation(
            flag(&req.config, "requires_fs"),
            flag(&req.config, "requires_network"),
            flag(&req.config, "untrusted"),
        )
    } else {
        req.isolation
    };
    let r = AgentSpec {
        agent_id,
        capability_id: req.capability_id,
        goal: req.goal.clone(),
        context: req.context.clone(),
        toolsets: clone_texts(req.toolsets.as_slice()),
        isolation,
        timeout_ms: req.timeout_ms,
        config: req.config.clone(),
        parent_agent_id: req.parent_agent_id,
        delegate_depth: req.delegate_depth,
        scope: clone_scope(&req.scope),
        parent_toolsets: clone_texts(req.parent_toolsets.as_slice()),
        session_id: clone_opt(&req.session_id),
    };
    assert(r.toolsets.deep_view() =~= req.toolsets.deep_view());
    assert(r.parent_toolsets.deep_view() =~= req.parent_toolsets.deep_view());
    r
}

/// Code that is not trusted is isolated the most, then what reaches the network, then what
/// reaches files; anything else runs in the same process.
pub proof fn isolation_follows_the_need(fs: bool, network: bool)
    ensures
        called_for(fs, network, true) == IsolationLevel::Wasm,
        called_for(fs, true, false) == IsolationLevel::Container,
        called_for(true, false, false) == IsolationLevel::Process,
        called_for(false, false, false) == IsolationLevel::Coroutine,
{
}

/// An agent runs under the isolation that is asked for; where none is, its settings decide by
/// what it needs.
pub proof fn isolation_is_as_asked_for(asked: IsolationLevel, config: JsonModel)
    ensures
        asked != IsolationLevel::Coroutine ==> launch_level(asked, config) == asked,
        !(config is Object) ==> launch_level(asked, config) == asked,
        asked == IsolationLevel::Coroutine && config is Object && config.at("untrusted"@)
            == JsonModel::Bool(true) ==> launch_level(asked, config) == IsolationLevel::Wasm,
        asked == IsolationLevel::Coroutine && config is Object && config.at("untrusted"@)
            != JsonModel::Bool(true) && config.at("requires_network"@) == JsonModel::Bool(true)
            ==> launch_level(asked, config) == IsolationLevel::Container,
        asked == IsolationLevel::Coroutine && config is Object && config.at("untrusted"@)
            != JsonModel::Bool(true) && config.at("requires_network"@) != JsonModel::Bool(true)
            && config.at("requires_fs"@) == JsonModel::Bool(true) ==> launch_level(asked, config)
            == IsolationLevel::Process,
{
}

/// The isolations by their names; no other name is one.
pub proof fn isolations_have_their_names(s: Seq<char>)
    ensures
        level_of("coroutine"@) == Some(IsolationLevel::Coroutine),
        level_of("process"@) == Some(IsolationLevel::Process),
        level_of("container"@) == Some(IsolationLevel::Container),
        level_of("wasm"@) == Some(IsolationLevel::Wasm),
        level_of(s) is Some ==> s == "coroutine"@ || s == "process"@ || s == "container"@ || s
            == "wasm"@,
{
    reveal_strlit("coroutine");
    reveal_strlit("process");
    reveal_strlit("container");
    reveal_strlit("wasm");
    assert("coroutine"@.len() == 9);
    assert("process"@.len() == 7);
    assert("container"@.len() == 9);
    assert("wasm"@.len() == 4);
    assert("container"@[2] == 'n');
    assert("coroutine"@[2] == 'r');
}

} // verus!

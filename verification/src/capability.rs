//! What agents can call: tools, other agents and sources of data.
use vstd::prelude::*;

use crate::ids::fresh_id;
use crate::json::{Json, JsonModel};
use crate::llm::{clone_texts, ToolDefinition, ToolDefinitionModel};
use crate::scope::MemoryScope;

verus! {

/// What a capability is.
#[derive(Debug, Clone, Copy, PartialEq, Eq, Structural)]
pub enum CapabilityKind {
    /// A function without state.
    Tool,
    /// An agent, which runs for long and has a state.
    Agent,
    /// A source of data.
    Resource,
}

/// Where a capability comes from.
#[derive(Debug, PartialEq, Eq)]
pub enum CapabilitySource {
    Native { module: String },
    Mcp { server_url: String, tool_name: String },
    A2a { agent_url: String, agent_card: Json },
}

/// Where a capability comes from.
pub enum SourceModel {
    Native { module: Seq<char> },
    Mcp { server_url: Seq<char>, tool_name: Seq<char> },
    A2a { agent_url: Seq<char>, agent_card: JsonModel },
}

impl View for CapabilitySource {
    type V = SourceModel;

    open spec fn view(&self) -> SourceModel {
        match self {
            CapabilitySource::Native { module } => SourceModel::Native { module: module@ },
            CapabilitySource::Mcp { server_url, tool_name } => SourceModel::Mcp {
                server_url: server_url@,
                tool_name: tool_name@,
            },
            CapabilitySource::A2a { agent_url, agent_card } => SourceModel::A2a {
                agent_url: agent_url@,
                agent_card: agent_card@,
            },
        }
    }
}

impl Clone for CapabilitySource {
    fn clone(&self) -> (r: Self)
        ensures
            r@ == self@,
    {
        match self {
            CapabilitySource::Native { module } => CapabilitySource::Native {
                module: module.clone(),
            },
            CapabilitySource::Mcp { server_url, tool_name } => CapabilitySource::Mcp {
                server_url: server_url.clone(),
                tool_name: tool_name.clone(),
            },
            CapabilitySource::A2a { agent_url, agent_card } => CapabilitySource::A2a {
                agent_url: agent_url.clone(),
                agent_card: agent_card.clone(),
            },
        }
    }
}

/// What a capability is and how it is called.
#[derive(Debug, PartialEq, Eq)]
pub struct CapabilitySpec {
    pub id: u128,
    pub name: String,
    pub kind: CapabilityKind,
    pub description: String,
    pub input_schema: Json,
    pub output_schema: Json,
    pub streaming: bool,
    pub long_running: bool,
    pub stateful: bool,
    pub max_concurrency: usize,
    /// How many seconds a call may take.
    pub timeout: Option<u64>,
    pub source: CapabilitySource,
    pub required_permissions: Vec<String>,
    /// The tool sets that it belongs to.
    pub tags: Vec<String>,
}

/// What a capability is and how it is called.
#[verifier::ext_equal]
pub struct SpecModel {
    pub id: u128,
    pub name: Seq<char>,
    pub kind: CapabilityKind,
    pub description: Seq<char>,
    pub input_schema: JsonModel,
    pub output_schema: JsonModel,
    pub streaming: bool,
    pub long_running: bool,
    pub stateful: bool,
    pub max_concurrency: usize,
    pub timeout: Option<u64>,
    pub source: SourceModel,
    pub required_permissions: Seq<Seq<char>>,
    pub tags: Seq<Seq<char>>,
}

impl View for CapabilitySpec {
    type V = SpecModel;

    open spec fn view(&self) -> SpecModel {
        SpecModel {
            id: self.id,
            name: self.name@,
            kind: self.kind,
            description: self.description@,
            input_schema: self.input_schema@,
            output_schema: self.output_schema@,
            streaming: self.streaming,
            long_running: self.long_running,
            stateful: self.stateful,
            max_concurrency: self.max_concurrency,
            timeout: self.timeout,
            source: self.source@,
            required_permissions: self.required_permissions.deep_view(),
            tags: self.tags.deep_view(),
        }
    }
}

impl DeepView for CapabilitySpec {
    type V = SpecModel;

    open spec fn deep_view(&self) -> SpecModel {
        self@
    }
}

impl Clone for CapabilitySpec {
    fn clone(&self) -> (r: Self)
        ensures
            r@ == self@,
    {
        CapabilitySpec {
            id: self.id,
            name: self.name.clone(),
            kind: self.kind,
            description: self.description.clone(),
            input_schema: self.input_schema.clone(),
            output_schema: self.output_schema.clone(),
            streaming: self.streaming,
            long_running: self.long_running,
            stateful: self.stateful,
            max_concurrency: self.max_concurrency,
            timeout: self.timeout,
            source: self.source.clone(),
            required_permissions: clone_texts(self.required_permissions.as_slice()),
            tags: clone_texts(self.tags.as_slice()),
        }
    }
}

/// An object without fields.
pub open spec fn no_fields() -> JsonModel {
    JsonModel::Object(Seq::empty())
}

/// An object without fields.
pub fn empty_object() -> (r: Json)
    ensures
        r@ == no_fields(),
{
    let r = Json::object(Vec::new());
    assert(r@->Object_0 =~= Seq::<(Seq<char>, JsonModel)>::empty());
    r
}

/// A capability of which nothing has been said, with that identifier.
pub open spec fn blank_spec(id: u128) -> SpecModel {
    SpecModel {
        id,
        name: Seq::empty(),
        kind: CapabilityKind::Tool,
        description: Seq::empty(),
        input_schema: no_fields(),
        output_schema: no_fields(),
        streaming: false,
        long_running: false,
        stateful: false,
        max_concurrency: 1,
        timeout: None,
        source: SourceModel::Native { module: Seq::empty() },
        required_permissions: Seq::empty(),
        tags: Seq::empty(),
    }
}

impl Default for CapabilitySpec {
    /// A capability of which nothing has been said, with a fresh identifier.
    fn default() -> (r: Self)
        ensures
            r@ == blank_spec(r.id),
    {
        CapabilitySpec {
            id: fresh_id(),
            name: String::new(),
            kind: CapabilityKind::Tool,
            description: String::new(),
            input_schema: empty_object(),
            output_schema: empty_object(),
            streaming: false,
            long_running: false,
            stateful: false,
            max_concurrency: 1,
            timeout: None,
            source: CapabilitySource::Native { module: String::new() },
            required_permissions: Vec::new(),
            tags: Vec::new(),
        }
    }
}

/// What a call of a capability comes to.
#[derive(Debug, PartialEq, Eq)]
pub enum CapabilityExecution {
    /// The result.
    Sync(Json),
    /// The name of a task that goes on.
    Async { task_id: String },
}

/// A piece of a result.
#[derive(Debug, PartialEq, Eq)]
pub enum CapabilityChunk {
    Data(Json),
    Done,
    Error(String),
}

/// On whose behalf a tool is called.
#[derive(Debug, PartialEq, Eq)]
pub struct ToolContext {
    pub scope: MemoryScope,
    pub session_id: String,
}

impl ToolContext {
    /// On behalf of that scope, in that session.
    pub fn new(scope: MemoryScope, session_id: String) -> (r: Self)
        ensures
            r.scope == scope,
            r.session_id == session_id,
    {
        ToolContext { scope, session_id }
    }
}

impl ToolContext {
    /// On behalf of whom a run calls its tools: of its scope, or of everybody where it has
    /// none; in its session, or in the one that is named after its thread.
    pub fn for_run(
        scope: &Option<MemoryScope>,
        session_id: &Option<String>,
        thread_id: &str,
    ) -> (r: Self)
        ensures
            r.scope@ == match *scope {
                Some(s) => s@,
                None => (None, None),
            },
            r.session_id@ == match *session_id {
                Some(s) => s@,
                None => thread_id@,
            },
    {
        let scope = match scope {
            Some(s) => s.clone(),
            None => MemoryScope::default(),
        };
        let session_id = match session_id {
            Some(s) => s.clone(),
            None => String::from_str(thread_id),
        };
        ToolContext::new(scope, session_id)
    }
}

impl Clone for ToolContext {
    fn clone(&self) -> (r: Self)
        ensures
            r.scope@ == self.scope@,
            r.session_id@ == self.session_id@,
    {
        ToolContext { scope: self.scope.clone(), session_id: self.session_id.clone() }
    }
}

impl Default for ToolContext {
    fn default() -> (r: Self)
        ensures
            r.scope@ == (None::<Seq<char>>, None::<Seq<char>>),
            r.session_id@.len() == 0,
    {
        ToolContext { scope: MemoryScope::default(), session_id: String::new() }
    }
}

/// How a capability is described to the model.
pub open spec fn tool_def(spec: SpecModel) -> ToolDefinitionModel {
    ToolDefinitionModel {
        name: spec.name,
        description: spec.description,
        parameters: spec.input_schema,
    }
}

/// How a capability is described to the model.
pub fn capability_to_tool_def(spec: &CapabilitySpec) -> (r: ToolDefinition)
    ensures
        r@ == tool_def(spec@),
{
    ToolDefinition {
        name: spec.name.clone(),
        description: spec.description.clone(),
        parameters: spec.input_schema.clone(),
    }
}

/// A capability is offered to the model under its name, with its description and with what it
/// takes as parameters.
pub proof fn a_capability_is_offered_as_it_is(spec: SpecModel)
    ensures
        tool_def(spec).name == spec.name,
        tool_def(spec).description == spec.description,
        tool_def(spec).parameters == spec.input_schema,
{
}

/// A capability of which nothing has been said is a tool without a name that does one thing at
/// a time, at once, and needs nothing.
pub proof fn what_a_capability_is_at_first(id: u128)
    ensures
        ({
            let s = blank_spec(id);
            &&& s.id == id
            &&& s.kind == CapabilityKind::Tool
            &&& s.name.len() == 0 && s.description.len() == 0
            &&& s.input_schema == JsonModel::Object(Seq::empty())
            &&& s.output_schema == JsonModel::Object(Seq::empty())
            &&& !s.streaming && !s.long_running && !s.stateful
            &&& s.max_concurrency == 1
            &&& s.timeout is None
            &&& s.required_permissions.len() == 0 && s.tags.len() == 0
        }),
{
}

} // verus!

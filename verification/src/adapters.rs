//! How calls reach what is outside: built-in tools, tools of MCP servers and agents that
//! speak A2A.
use vstd::prelude::*;

use crate::capability;
use crate::capability::{
    empty_object, CapabilityExecution, CapabilityKind, CapabilitySource, CapabilitySpec,
    SourceModel, SpecModel,
};
use crate::directory::Directory;
use crate::errors::LoomError;
use crate::json;
use crate::json::{add_field, Json, JsonModel};
use crate::llm::clone_texts;

verus! {

broadcast use {crate::seqs::group_views, crate::json::fields_model_push};

/// The protocols that adapters speak.
#[derive(Debug, Clone, Copy, PartialEq, Eq, Structural)]
pub enum AdapterKind {
    Native,
    Mcp,
    A2a,
}

/// How an adapter proves who calls.
#[derive(Debug, PartialEq, Eq)]
pub struct AuthConfig {
    pub token: String,
}

/// What an adapter connects to.
#[derive(Debug, PartialEq, Eq)]
pub struct AdapterConfig {
    pub kind: AdapterKind,
    pub endpoint: String,
    pub auth: Option<AuthConfig>,
}

// ---------- the choice of an adapter ----------

/// The adapters, by the source of what is called.
#[derive(Debug)]
pub struct AdapterManager<A> {
    pub native: A,
    pub mcp_clients: Directory<A>,
    pub a2a_clients: Directory<A>,
}

/// The adapter that a source is reached through, where there is one.
pub open spec fn chosen<A>(
    native: A,
    mcp: Map<Seq<char>, A>,
    a2a: Map<Seq<char>, A>,
    source: SourceModel,
) -> Option<A> {
    match source {
        SourceModel::Native { .. } => Some(native),
        SourceModel::Mcp { server_url, .. } => if mcp.contains_key(server_url) {
            Some(mcp[server_url])
        } else {
            None
        },
        SourceModel::A2a { agent_url, .. } => if a2a.contains_key(agent_url) {
            Some(a2a[agent_url])
        } else {
            None
        },
    }
}

/// How a source that no adapter reaches is named.
pub open spec fn source_name(source: SourceModel) -> Seq<char> {
    match source {
        SourceModel::Native { module } => module,
        SourceModel::Mcp { server_url, .. } => "mcp:"@ + server_url,
        SourceModel::A2a { agent_url, .. } => "a2a:"@ + agent_url,
    }
}

impl<A> AdapterManager<A> {
    /// The adapters, of which there is only the one for what is built in.
    pub fn new(native: A) -> (r: Self)
        ensures
            r.native == native,
            r.mcp_clients@ == Map::<Seq<char>, A>::empty(),
            r.a2a_clients@ == Map::<Seq<char>, A>::empty(),
    {
        AdapterManager { native, mcp_clients: Directory::new(), a2a_clients: Directory::new() }
    }

    /// Adds the adapter of an MCP server.
    pub fn register_mcp(&mut self, server_url: &str, adapter: A)
        ensures
            final(self).native == old(self).native,
            final(self).mcp_clients@ == old(self).mcp_clients@.insert(server_url@, adapter),
            final(self).a2a_clients@ == old(self).a2a_clients@,
    {
        self.mcp_clients.put(server_url, adapter);
    }

    /// Adds the adapter of an agent that speaks A2A.
    pub fn register_a2a(&mut self, agent_url: &str, adapter: A)
        ensures
            final(self).native == old(self).native,
            final(self).mcp_clients@ == old(self).mcp_clients@,
            final(self).a2a_clients@ == old(self).a2a_clients@.insert(agent_url@, adapter),
    {
        self.a2a_clients.put(agent_url, adapter);
    }

    /// The adapter that a source is reached through.
    pub fn select_adapter(&self, source: &CapabilitySource) -> (r: Result<&A, LoomError>)
        ensures
            match r {
                Ok(a) => chosen(
                    self.native,
                    self.mcp_clients@,
                    self.a2a_clients@,
                    source@,
                ) == Some(*a),
                Err(e) => chosen(
                    self.native,
                    self.mcp_clients@,
                    self.a2a_clients@,
                    source@,
                ) is None && (e matches LoomError::AdapterNotFound(name) && name@ == source_name(
                    source@,
                )),
            },
    {
        match source {
            CapabilitySource::Native { .. } => Ok(&self.native),
            CapabilitySource::Mcp { server_url, .. } => match self.mcp_clients.get(
                server_url.as_str(),
            ) {
                Some(a) => Ok(a),
                None => {
                    let mut name = String::from_str("mcp:");
                    name.append(server_url.as_str());
                    Err(LoomError::AdapterNotFound(name))
                },
            },
            CapabilitySource::A2a { agent_url, .. } => match self.a2a_clients.get(
                agent_url.as_str(),
            ) {
                Some(a) => Ok(a),
                None => {
                    let mut name = String::from_str("a2a:");
                    name.append(agent_url.as_str());
                    Err(LoomError::AdapterNotFound(name))
                },
            },
        }
    }
}

// ---------- what is built in ----------

/// A tool that is built in.
#[derive(Debug, PartialEq, Eq)]
pub struct NativeTool {
    pub name: String,
    pub description: String,
    pub input_schema: Json,
    pub output_schema: Json,
    pub streaming: bool,
    pub tags: Vec<String>,
}

/// The capability that a built-in tool is.
pub open spec fn native_spec(tool: NativeTool, id: u128) -> SpecModel {
    SpecModel {
        name: tool.name@,
        kind: CapabilityKind::Tool,
        description: tool.description@,
        input_schema: tool.input_schema@,
        output_schema: tool.output_schema@,
        streaming: tool.streaming,
        source: SourceModel::Native { module: tool.name@ },
        tags: tool.tags.deep_view(),
        ..capability::blank_spec(id)
    }
}

/// The capability that a built-in tool is.
fn native_capability(tool: &NativeTool) -> (r: CapabilitySpec)
    ensures
        r@ == native_spec(*tool, r.id),
{
    let mut spec = CapabilitySpec::default();
    spec.name = tool.name.clone();
    spec.kind = CapabilityKind::Tool;
    spec.description = tool.description.clone();
    spec.input_schema = tool.input_schema.clone();
    spec.output_schema = tool.output_schema.clone();
    spec.streaming = tool.streaming;
    spec.source = CapabilitySource::Native { module: tool.name.clone() };
    spec.tags = clone_texts(tool.tags.as_slice());
    spec
}

/// The capabilities that the built-in tools are, one for each.
pub fn native_capabilities(tools: &[NativeTool]) -> (r: Vec<CapabilitySpec>)
    ensures
        r@.len() == tools@.len(),
        forall|i: int|
            0 <= i < r@.len() ==> (#[trigger] r@[i])@ == native_spec(tools@[i], r@[i].id),
{
    let mut specs: Vec<CapabilitySpec> = Vec::new();
    let mut i: usize = 0;
    while i < tools.len()
        invariant
            i <= tools@.len(),
            specs@.len() == i,
            forall|k: int|
                0 <= k < i ==> (#[trigger] specs@[k])@ == native_spec(tools@[k], specs@[k].id),
        decreases tools@.len() - i,
    {
        specs.push(native_capability(&tools[i]));
        i += 1;
    }
    specs
}

// ---------- MCP ----------

/// A tool of an MCP server.
#[derive(Debug, PartialEq, Eq)]
pub struct McpTool {
    pub name: String,
    pub description: String,
    pub input_schema: Json,
}

/// A connection to an MCP server.
#[derive(Debug, PartialEq, Eq)]
pub struct McpClient {
    pub endpoint: String,
}

/// What a call of an MCP tool comes to.
pub open spec fn mcp_result(name: Seq<char>, args: JsonModel) -> JsonModel {
    JsonModel::Object(
        seq![
            ("tool"@, JsonModel::Str(name)),
            ("args"@, args),
            ("mock"@, JsonModel::Bool(true)),
        ],
    )
}

/// The capability that a tool of an MCP server is.
pub open spec fn mcp_spec(tool: McpTool, endpoint: Seq<char>, id: u128) -> SpecModel {
    SpecModel {
        name: tool.name@,
        kind: CapabilityKind::Tool,
        description: tool.description@,
        input_schema: tool.input_schema@,
        output_schema: capability::no_fields(),
        source: SourceModel::Mcp { server_url: endpoint, tool_name: tool.name@ },
        tags: seq!["mcp"@],
        ..capability::blank_spec(id)
    }
}

/// The capability that a tool of an MCP server is.
fn mcp_capability(tool: &McpTool, endpoint: &str) -> (r: CapabilitySpec)
    ensures
        r@ == mcp_spec(*tool, endpoint@, r.id),
{
    let mut tags: Vec<String> = Vec::new();
    tags.push(String::from_str("mcp"));
    assert(tags.deep_view() =~= seq!["mcp"@]);
    let mut spec = CapabilitySpec::default();
    spec.name = tool.name.clone();
    spec.kind = CapabilityKind::Tool;
    spec.description = tool.description.clone();
    spec.input_schema = tool.input_schema.clone();
    spec.output_schema = empty_object();
    spec.source = CapabilitySource::Mcp {
        server_url: String::from_str(endpoint),
        tool_name: tool.name.clone(),
    };
    spec.tags = tags;
    spec
}

/// The capabilities that the tools of an MCP server are, one for each.
pub fn mcp_capabilities(tools: &[McpTool], endpoint: &str) -> (r: Vec<CapabilitySpec>)
    ensures
        r@.len() == tools@.len(),
        forall|i: int|
            0 <= i < r@.len() ==> (#[trigger] r@[i])@ == mcp_spec(tools@[i], endpoint@, r@[i].id),
{
    let mut specs: Vec<CapabilitySpec> = Vec::new();
    let mut i: usize = 0;
    while i < tools.len()
        invariant
            i <= tools@.len(),
            specs@.len() == i,
            forall|k: int|
                0 <= k < i ==> (#[trigger] specs@[k])@ == mcp_spec(
                    tools@[k],
                    endpoint@,
                    specs@[k].id,
                ),
        decreases tools@.len() - i,
    {
        specs.push(mcp_capability(&tools[i], endpoint));
        i += 1;
    }
    specs
}

impl McpClient {
    /// A connection to a server.
    pub fn connect(endpoint: &str, _auth: &Option<AuthConfig>) -> (r: Self)
        ensures
            r.endpoint@ == endpoint@,
    {
        McpClient { endpoint: String::from_str(endpoint) }
    }

    /// The tools of the server, of which none are told.
    pub fn list_tools(&self) -> (r: Vec<McpTool>)
        ensures
            r@.len() == 0,
    {
        Vec::new()
    }

    /// Calls a tool of the server.
    pub fn call_tool(&self, name: &str, args: Json) -> (r: Json)
        ensures
            r@ == mcp_result(name@, args@),
    {
        let ghost a = args@;
        let mut o: Vec<(String, Json)> = Vec::new();
        add_field(&mut o, "tool", Json::string(name));
        add_field(&mut o, "args", args);
        add_field(&mut o, "mock", Json::Bool(true));
        let r = Json::object(o);
        assert(r@->Object_0 =~= mcp_result(name@, a)->Object_0);
        r
    }
}

/// The MCP servers that there is a connection to.
#[derive(Debug)]
pub struct McpAdapter {
    pub clients: Directory<McpClient>,
}

impl McpAdapter {
    /// No connections.
    pub fn new() -> (r: Self)
        ensures
            r.clients@ == Map::<Seq<char>, McpClient>::empty(),
    {
        McpAdapter { clients: Directory::new() }
    }

    /// The protocol.
    pub fn adapter_type(&self) -> (r: &'static str)
        ensures
            r@ == "mcp"@,
    {
        "mcp"
    }

    /// Connects to a server; the capabilities that its tools are.
    pub fn discover(&mut self, config: &AdapterConfig) -> (r: Vec<CapabilitySpec>)
        ensures
            r@.len() == 0,
            final(self).clients@.dom() == old(self).clients@.dom().insert(config.endpoint@),
            final(self).clients@[config.endpoint@].endpoint@ == config.endpoint@,
            forall|u: Seq<char>|
                u != config.endpoint@ && old(self).clients@.contains_key(u)
                    ==> #[trigger] final(self).clients@[u] == old(self).clients@[u],
    {
        let client = McpClient::connect(config.endpoint.as_str(), &config.auth);
        let tools = client.list_tools();
        self.clients.put(config.endpoint.as_str(), client);
        assert(self.clients@.dom() =~= old(self).clients@.dom().insert(config.endpoint@));
        mcp_capabilities(tools.as_slice(), config.endpoint.as_str())
    }

    /// Calls a tool of a server that there is a connection to.
    pub fn execute(&self, spec: &CapabilitySpec, args: Json) -> (r: Result<
        CapabilityExecution,
        LoomError,
    >)
        ensures
            match spec@.source {
                SourceModel::Mcp { server_url, tool_name } => if self.clients@.contains_key(
                    server_url,
                ) {
                    r matches Ok(CapabilityExecution::Sync(v)) && v@ == mcp_result(tool_name, args@)
                } else {
                    r matches Err(LoomError::Other(m)) && m@ == "MCP server not connected"@
                },
                _ => r matches Err(LoomError::CapabilityNotFound(m)) && m@ == spec@.name,
            },
    {
        match &spec.source {
            CapabilitySource::Mcp { server_url, tool_name } => match self.clients.get(
                server_url.as_str(),
            ) {
                Some(client) => Ok(
                    CapabilityExecution::Sync(client.call_tool(tool_name.as_str(), args)),
                ),
                None => Err(LoomError::Other(String::from_str("MCP server not connected"))),
            },
            _ => Err(LoomError::CapabilityNotFound(spec.name.clone())),
        }
    }
}

impl Default for McpAdapter {
    fn default() -> (r: Self)
        ensures
            r.clients@ == Map::<Seq<char>, McpClient>::empty(),
    {
        McpAdapter::new()
    }
}

/// The pieces that the result of a call is handed out in: a result is one piece, and of a
/// task that goes on there are none.
pub fn stream_of(execution: CapabilityExecution) -> (r: Result<Vec<Json>, LoomError>)
    ensures
        match execution {
            CapabilityExecution::Sync(v) => r matches Ok(items) && items@ == seq![v],
            CapabilityExecution::Async { .. } => r matches Err(LoomError::Other(m)) && m@
                == "async handle not supported"@,
        },
{
    match execution {
        CapabilityExecution::Sync(v) => {
            let mut items: Vec<Json> = Vec::new();
            items.push(v);
            Ok(items)
        },
        CapabilityExecution::Async { .. } => Err(
            LoomError::Other(String::from_str("async handle not supported")),
        ),
    }
}

// ---------- A2A ----------

/// A connection to an agent that speaks A2A.
#[derive(Debug, PartialEq, Eq)]
pub struct A2aClient {
    pub endpoint: String,
}

/// An object that says that a value is an object.
pub open spec fn any_object() -> JsonModel {
    JsonModel::Object(seq![("type"@, JsonModel::Str("object"@))])
}

/// An object that says that a value is an object.
fn any_object_value() -> (r: Json)
    ensures
        r@ == any_object(),
{
    let mut o: Vec<(String, Json)> = Vec::new();
    add_field(&mut o, "type", Json::string("object"));
    let r = Json::object(o);
    assert(r@->Object_0 =~= any_object()->Object_0);
    r
}

/// How an agent introduces itself.
pub open spec fn agent_card() -> JsonModel {
    JsonModel::Object(
        seq![
            ("name"@, JsonModel::Str("remote-agent"@)),
            ("description"@, JsonModel::Str("A remote A2A agent"@)),
            ("inputSchema"@, any_object()),
            ("outputSchema"@, any_object()),
        ],
    )
}

/// A task that has begun.
pub open spec fn task_begun() -> JsonModel {
    JsonModel::Object(
        seq![
            ("taskId"@, JsonModel::Str("mock-task-id"@)),
            ("status"@, JsonModel::Str("working"@)),
        ],
    )
}

/// A task that is done.
pub open spec fn task_done() -> JsonModel {
    JsonModel::Object(
        seq![
            ("status"@, JsonModel::Str("completed"@)),
            ("result"@, JsonModel::Object(seq![("mock"@, JsonModel::Bool(true))])),
        ],
    )
}

/// The last of the pieces of a result.
pub fn last_piece(pieces: Vec<Json>) -> (r: Result<Json, LoomError>)
    ensures
        match r {
            Ok(v) => pieces@.len() > 0 && v == pieces@.last(),
            Err(e) => pieces@.len() == 0 && (e matches LoomError::Other(m) && m@
                == "no result from A2A agent"@),
        },
{
    let mut pieces = pieces;
    match pieces.pop() {
        Some(v) => Ok(v),
        None => Err(LoomError::Other(String::from_str("no result from A2A agent"))),
    }
}

impl A2aClient {
    /// A connection to an agent.
    pub fn new(endpoint: &str) -> (r: Self)
        ensures
            r.endpoint@ == endpoint@,
    {
        A2aClient { endpoint: String::from_str(endpoint) }
    }

    /// How the agent introduces itself.
    pub fn get_agent_card(&self) -> (r: Json)
        ensures
            r@ == agent_card(),
    {
        let mut o: Vec<(String, Json)> = Vec::new();
        add_field(&mut o, "name", Json::string("remote-agent"));
        add_field(&mut o, "description", Json::string("A remote A2A agent"));
        add_field(&mut o, "inputSchema", any_object_value());
        add_field(&mut o, "outputSchema", any_object_value());
        let r = Json::object(o);
        assert(r@->Object_0 =~= agent_card()->Object_0);
        r
    }

    /// Gives the agent a task.
    pub fn create_task(&self, _input: &Json) -> (r: Json)
        ensures
            r@ == task_begun(),
    {
        let mut o: Vec<(String, Json)> = Vec::new();
        add_field(&mut o, "taskId", Json::string("mock-task-id"));
        add_field(&mut o, "status", Json::string("working"));
        let r = Json::object(o);
        assert(r@->Object_0 =~= task_begun()->Object_0);
        r
    }

    /// The pieces of the result of a task.
    pub fn stream_task(&self, _task_id: &str) -> (r: Vec<Json>)
        ensures
            r@.len() == 1,
            r@[0]@ == task_done(),
    {
        let mut inner: Vec<(String, Json)> = Vec::new();
        add_field(&mut inner, "mock", Json::Bool(true));
        let result = Json::object(inner);
        assert(result@->Object_0 =~= seq![("mock"@, JsonModel::Bool(true))]);
        let mut o: Vec<(String, Json)> = Vec::new();
        add_field(&mut o, "status", Json::string("completed"));
        add_field(&mut o, "result", result);
        let done = Json::object(o);
        assert(done@->Object_0 =~= task_done()->Object_0);
        let mut pieces: Vec<Json> = Vec::new();
        pieces.push(done);
        pieces
    }

    /// The result of a task, when it is done.
    pub fn wait_for_completion(&self, task_id: &str) -> (r: Result<Json, LoomError>)
        ensures
            r matches Ok(v) && v@ == task_done(),
    {
        last_piece(self.stream_task(task_id))
    }
}

/// The capability that an agent is, by how it introduces itself.
pub open spec fn a2a_spec(card: JsonModel, endpoint: Seq<char>, id: u128) -> SpecModel {
    SpecModel {
        name: match card.at("name"@).as_str() {
            Some(n) => n,
            None => "remote-agent"@,
        },
        kind: CapabilityKind::Agent,
        description: match card.at("description"@).as_str() {
            Some(d) => d,
            None => Seq::empty(),
        },
        input_schema: match card.get("inputSchema"@) {
            Some(s) => s,
            None => any_object(),
        },
        output_schema: match card.get("outputSchema"@) {
            Some(s) => s,
            None => capability::no_fields(),
        },
        streaming: true,
        long_running: true,
        stateful: true,
        source: SourceModel::A2a { agent_url: endpoint, agent_card: card },
        tags: seq!["a2a"@, "remote"@],
        ..capability::blank_spec(id)
    }
}

/// The capability that an agent is, by how it introduces itself.
pub fn a2a_capability(card: Json, endpoint: &str) -> (r: CapabilitySpec)
    ensures
        r@ == a2a_spec(card@, endpoint@, r.id),
{
    let mut tags: Vec<String> = Vec::new();
    tags.push(String::from_str("a2a"));
    tags.push(String::from_str("remote"));
    assert(tags.deep_view() =~= seq!["a2a"@, "remote"@]);
    let mut spec = CapabilitySpec::default();
    spec.name = match card.str_field("name") {
        Some(n) => String::from_str(n),
        None => String::from_str("remote-agent"),
    };
    spec.kind = CapabilityKind::Agent;
    spec.description = match card.str_field("description") {
        Some(d) => String::from_str(d),
        None => String::new(),
    };
    spec.input_schema = match card.get("inputSchema") {
        Some(s) => s.clone(),
        None => any_object_value(),
    };
    spec.output_schema = match card.get("outputSchema") {
        Some(s) => s.clone(),
        None => empty_object(),
    };
    spec.streaming = true;
    spec.long_running = true;
    spec.stateful = true;
    spec.source = CapabilitySource::A2a { agent_url: String::from_str(endpoint), agent_card: card };
    spec.tags = tags;
    spec
}

/// The agents that there is a connection to.
#[derive(Debug)]
pub struct A2aAdapter {
    pub clients: Directory<A2aClient>,
}

impl A2aAdapter {
    /// No connections.
    pub fn new() -> (r: Self)
        ensures
            r.clients@ == Map::<Seq<char>, A2aClient>::empty(),
    {
        A2aAdapter { clients: Directory::new() }
    }

    /// The protocol.
    pub fn adapter_type(&self) -> (r: &'static str)
        ensures
            r@ == "a2a"@,
    {
        "a2a"
    }

    /// Connects to an agent; the one capability that it is.
    pub fn discover(&mut self, config: &AdapterConfig) -> (r: Vec<CapabilitySpec>)
        ensures
            r@.len() == 1,
            r@[0]@ == a2a_spec(agent_card(), config.endpoint@, r@[0].id),
            final(self).clients@.dom() == old(self).clients@.dom().insert(config.endpoint@),
            final(self).clients@[config.endpoint@].endpoint@ == config.endpoint@,
            forall|u: Seq<char>|
                u != config.endpoint@ && old(self).clients@.contains_key(u)
                    ==> #[trigger] final(self).clients@[u] == old(self).clients@[u],
    {
        let client = A2aClient::new(config.endpoint.as_str());
        let card = client.get_agent_card();
        self.clients.put(config.endpoint.as_str(), client);
        assert(self.clients@.dom() =~= old(self).clients@.dom().insert(config.endpoint@));
        let mut specs: Vec<CapabilitySpec> = Vec::new();
        specs.push(a2a_capability(card, config.endpoint.as_str()));
        specs
    }

    /// The pieces of the result of a task of an agent that there is a connection to.
    pub fn execute_stream(&self, spec: &CapabilitySpec, args: &Json) -> (r: Result<
        Vec<Json>,
        LoomError,
    >)
        ensures
            match spec@.source {
                SourceModel::A2a { agent_url, .. } => if self.clients@.contains_key(agent_url) {
                    r matches Ok(pieces) && pieces@.len() == 1 && pieces@[0]@ == task_done()
                } else {
                    r matches Err(LoomError::Other(m)) && m@ == "A2A agent not connected"@
                },
                _ => r matches Err(LoomError::CapabilityNotFound(m)) && m@ == spec@.name,
            },
    {
        match &spec.source {
            CapabilitySource::A2a { agent_url, .. } => match self.clients.get(agent_url.as_str()) {
                Some(client) => {
                    let task = client.create_task(args);
                    let task_id = match task.str_field("taskId") {
                        Some(t) => String::from_str(t),
                        None => String::new(),
                    };
                    Ok(client.stream_task(task_id.as_str()))
                },
                None => Err(LoomError::Other(String::from_str("A2A agent not connected"))),
            },
            _ => Err(LoomError::CapabilityNotFound(spec.name.clone())),
        }
    }

    /// The result of a task of an agent that there is a connection to.
    pub fn execute(&self, spec: &CapabilitySpec, args: &Json) -> (r: Result<
        CapabilityExecution,
        LoomError,
    >)
        ensures
            match spec@.source {
                SourceModel::A2a { agent_url, .. } => if self.clients@.contains_key(agent_url) {
                    r matches Ok(CapabilityExecution::Sync(v)) && v@ == task_done()
                } else {
                    r matches Err(LoomError::Other(m)) && m@ == "A2A agent not connected"@
                },
                _ => r matches Err(LoomError::CapabilityNotFound(m)) && m@ == spec@.name,
            },
    {
        match self.execute_stream(spec, args) {
            Ok(pieces) => match last_piece(pieces) {
                Ok(v) => Ok(CapabilityExecution::Sync(v)),
                Err(e) => Err(e),
            },
            Err(e) => Err(e),
        }
    }
}

impl Default for A2aAdapter {
    fn default() -> (r: Self)
        ensures
            r.clients@ == Map::<Seq<char>, A2aClient>::empty(),
    {
        A2aAdapter::new()
    }
}

// ---------- laws ----------

/// What is called reaches the adapter that was added last for where it comes from, and
/// adapters that are added for other sources change nothing of it.
pub proof fn a_source_is_reached_through_its_adapter<A>(
    native: A,
    mcp: Map<Seq<char>, A>,
    a2a: Map<Seq<char>, A>,
    url: Seq<char>,
    adapter: A,
    source: SourceModel,
)
    ensures
        chosen(native, mcp.insert(url, adapter), a2a, source) == if source is Mcp
            && source->server_url == url {
            Some(adapter)
        } else {
            chosen(native, mcp, a2a, source)
        },
        chosen(native, mcp, a2a.insert(url, adapter), source) == if source is A2a
            && source->agent_url == url {
            Some(adapter)
        } else {
            chosen(native, mcp, a2a, source)
        },
{
}

/// What is built in is always reached.
pub proof fn built_in_tools_are_always_reached<A>(
    native: A,
    mcp: Map<Seq<char>, A>,
    a2a: Map<Seq<char>, A>,
    module: Seq<char>,
)
    ensures
        chosen(native, mcp, a2a, SourceModel::Native { module }) == Some(native),
{
}

/// To the model a remote agent is a tool like any other: of both it is told the name, the
/// description and the form of the arguments.
pub proof fn agents_are_called_like_tools(
    tool: McpTool,
    card: JsonModel,
    endpoint: Seq<char>,
    tool_id: u128,
    agent_id: u128,
)
    requires
        card.get("name"@) == Some(JsonModel::Str(tool.name@)),
        card.get("description"@) == Some(JsonModel::Str(tool.description@)),
        card.get("inputSchema"@) == Some(tool.input_schema@),
    ensures
        capability::tool_def(mcp_spec(tool, endpoint, tool_id)) == capability::tool_def(
            a2a_spec(card, endpoint, agent_id),
        ),
{
}

/// A tool keeps its name, its description and what it takes, whether it is built in or stands
/// on a server, and says where it is reached; an agent that is reached from afar is called as
/// its card says.
pub proof fn capabilities_are_as_they_are_told(
    native: NativeTool,
    tool: McpTool,
    card: JsonModel,
    endpoint: Seq<char>,
    id: u128,
)
    ensures
        ({
            let n = native_spec(native, id);
            let m = mcp_spec(tool, endpoint, id);
            let a = a2a_spec(card, endpoint, id);
            &&& n.name == native.name@
            &&& n.description == native.description@
            &&& n.input_schema == native.input_schema@
            &&& n.output_schema == native.output_schema@
            &&& n.kind == CapabilityKind::Tool
            &&& n.source == (SourceModel::Native { module: native.name@ })
            &&& n.tags == native.tags.deep_view()
            &&& m.name == tool.name@
            &&& m.description == tool.description@
            &&& m.input_schema == tool.input_schema@
            &&& m.kind == CapabilityKind::Tool
            &&& m.source == (SourceModel::Mcp { server_url: endpoint, tool_name: tool.name@ })
            &&& a.kind == CapabilityKind::Agent
            &&& card.get("name"@) matches Some(JsonModel::Str(s)) ==> a.name == s
            &&& !(card.at("name"@) is Str) ==> a.name == "remote-agent"@
            &&& card.get("description"@) matches Some(JsonModel::Str(s)) ==> a.description == s
            &&& card.get("inputSchema"@) matches Some(s) ==> a.input_schema == s
            &&& card.get("outputSchema"@) matches Some(s) ==> a.output_schema == s
            &&& a.source == (SourceModel::A2a { agent_url: endpoint, agent_card: card })
            &&& a.streaming && a.long_running && a.stateful
            &&& a.tags == seq!["a2a"@, "remote"@]
            &&& card.get("description"@) is None ==> a.description.len() == 0
            &&& card.get("outputSchema"@) is None ==> a.output_schema == JsonModel::Object(
                Seq::empty(),
            )
            &&& m.output_schema == JsonModel::Object(Seq::empty())
            &&& m.tags == seq!["mcp"@]
            &&& n.streaming == native.streaming
            &&& n.id == id && m.id == id && a.id == id
        }),
{
}

/// A tool or an agent is reached through the adapter of its address, and through none where
/// there is none.
pub proof fn an_adapter_is_found_by_its_address<A>(
    native: A,
    mcp: Map<Seq<char>, A>,
    a2a: Map<Seq<char>, A>,
    url: Seq<char>,
    name: Seq<char>,
    card: JsonModel,
)
    ensures
        ({
            let server = SourceModel::Mcp { server_url: url, tool_name: name };
            let agent = SourceModel::A2a { agent_url: url, agent_card: card };
            &&& mcp.contains_key(url) ==> chosen(native, mcp, a2a, server) == Some(mcp[url])
            &&& !mcp.contains_key(url) ==> chosen(native, mcp, a2a, server) is None
            &&& a2a.contains_key(url) ==> chosen(native, mcp, a2a, agent) == Some(a2a[url])
            &&& !a2a.contains_key(url) ==> chosen(native, mcp, a2a, agent) is None
            &&& source_name(server) == "mcp:"@ + url
            &&& source_name(agent) == "a2a:"@ + url
            &&& source_name(SourceModel::Native { module: name }) == name
        }),
{
}

/// A tool on a server that is stood in for says which tool was called with which arguments; an
/// agent from afar that is stood in for is at work first and done then.
pub proof fn what_stands_in_for_the_network(name: Seq<char>, args: JsonModel)
    ensures
        mcp_result(name, args).get("tool"@) == Some(JsonModel::Str(name)),
        mcp_result(name, args).get("args"@) == Some(args),
        mcp_result(name, args).get("mock"@) == Some(JsonModel::Bool(true)),
        task_begun().get("status"@) == Some(JsonModel::Str("working"@)),
        task_begun().get("taskId"@) == Some(JsonModel::Str("mock-task-id"@)),
        task_done().get("status"@) == Some(JsonModel::Str("completed"@)),
        task_done().at("result"@).get("mock"@) == Some(JsonModel::Bool(true)),
        agent_card().get("name"@) == Some(JsonModel::Str("remote-agent"@)),
{
    reveal_strlit("tool");
    reveal_strlit("args");
    reveal_strlit("mock");
    reveal_strlit("status");
    reveal_strlit("taskId");
    reveal_strlit("result");
    reveal_strlit("name");
    assert("tool"@.len() == 4);
    assert("args"@.len() == 4);
    assert("mock"@.len() == 4);
    assert("status"@.len() == 6);
    assert("taskId"@.len() == 6);
    assert("result"@.len() == 6);
    assert("name"@.len() == 4);
    assert("args"@[0] == 'a');
    assert("mock"@[0] == 'm');
    assert("name"@[0] == 'n');
    assert("result"@[0] == 'r');
    assert("status"@[0] == 's');
    assert("taskId"@[0] == 't');
    assert("tool"@[0] == 't');
    let a = mcp_result(name, args)->Object_0;
    let b = task_begun()->Object_0;
    let c = task_done()->Object_0;
    json::a_field_is_found(a, 0);
    json::a_field_is_found(a, 1);
    json::a_field_is_found(a, 2);
    json::a_field_is_found(b, 0);
    json::a_field_is_found(b, 1);
    json::a_field_is_found(c, 0);
    json::a_field_is_found(c, 1);
    json::a_field_is_found(c[1].1->Object_0, 0);
    json::a_field_is_found(agent_card()->Object_0, 0);
}

} // verus!

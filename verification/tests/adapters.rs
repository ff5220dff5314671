use loom::adapters::{
    a2a_capability, last_piece, mcp_capabilities, native_capabilities, stream_of, A2aAdapter,
    A2aClient, AdapterConfig, AdapterKind, AdapterManager, McpAdapter, McpClient, McpTool, NativeTool,
};
use loom::capability::{
    CapabilityExecution, CapabilityKind, CapabilitySource, CapabilitySpec,
};
use loom::directory::Directory;
use loom::json::codec::read_json;
use loom::json::Json;

fn json(text: &str) -> Json {
    read_json(text).unwrap()
}

fn config(kind: AdapterKind, endpoint: &str) -> AdapterConfig {
    AdapterConfig { kind, endpoint: endpoint.to_string(), auth: None }
}

fn mcp(url: &str) -> CapabilitySource {
    CapabilitySource::Mcp { server_url: url.to_string(), tool_name: "t".to_string() }
}

fn a2a(url: &str) -> CapabilitySource {
    CapabilitySource::A2a { agent_url: url.to_string(), agent_card: Json::Null }
}

#[test]
fn a_source_is_reached_through_its_adapter() {
    let mut manager = AdapterManager::new("native");
    manager.register_mcp("http://a", "first");
    manager.register_mcp("http://a", "second");
    manager.register_a2a("http://a", "agent");
    let native = CapabilitySource::Native { module: "m".to_string() };
    assert_eq!(manager.select_adapter(&native), Ok(&"native"));
    assert_eq!(manager.select_adapter(&mcp("http://a")), Ok(&"second"));
    assert_eq!(manager.select_adapter(&a2a("http://a")), Ok(&"agent"));
    assert_eq!(
        manager.select_adapter(&mcp("http://b")).unwrap_err().to_text(),
        "adapter not found for source: \"mcp:http://b\""
    );
    assert_eq!(
        manager.select_adapter(&a2a("http://b")).unwrap_err().to_text(),
        "adapter not found for source: \"a2a:http://b\""
    );
}

#[test]
fn an_agent_is_discovered_and_called() {
    let mut adapter = A2aAdapter::new();
    assert_eq!(adapter.adapter_type(), "a2a");
    let specs = adapter.discover(&config(AdapterKind::A2a, "http://a"));
    assert_eq!(specs.len(), 1);
    assert_eq!(specs[0].name, "remote-agent");
    assert_eq!(specs[0].description, "A remote A2A agent");
    assert_eq!(specs[0].kind, CapabilityKind::Agent);
    assert!(specs[0].streaming && specs[0].long_running && specs[0].stateful);
    assert_eq!(specs[0].tags, vec!["a2a".to_string(), "remote".to_string()]);
    let done = json(r#"{"status": "completed", "result": {"mock": true}}"#);
    match adapter.execute(&specs[0], &Json::Null).unwrap() {
        CapabilityExecution::Sync(v) => assert!(v.same(&done)),
        other => panic!("{other:?}"),
    }
    assert_eq!(adapter.execute_stream(&specs[0], &Json::Null).unwrap().len(), 1);
    let elsewhere = CapabilitySpec { source: a2a("http://b"), ..Default::default() };
    assert_eq!(
        adapter.execute(&elsewhere, &Json::Null).unwrap_err().to_text(),
        "A2A agent not connected"
    );
    let foreign = CapabilitySpec { name: "x".to_string(), ..Default::default() };
    assert_eq!(
        adapter.execute(&foreign, &Json::Null).unwrap_err().to_text(),
        "capability not found: x"
    );
}

#[test]
fn an_agent_without_a_card_has_a_name() {
    let spec = a2a_capability(json("{}"), "http://a");
    assert_eq!(spec.name, "remote-agent");
    assert_eq!(spec.description, "");
    assert_eq!(spec.input_schema, json(r#"{"type": "object"}"#));
    assert_eq!(spec.output_schema, json("{}"));
}

#[test]
fn a_tool_of_a_server_is_called() {
    let mut adapter = McpAdapter::new();
    assert_eq!(adapter.adapter_type(), "mcp");
    assert!(adapter.discover(&config(AdapterKind::Mcp, "http://a")).is_empty());
    let tools = vec![McpTool {
        name: "search".to_string(),
        description: "d".to_string(),
        input_schema: json("{}"),
    }];
    let specs = mcp_capabilities(&tools, "http://a");
    assert_eq!(specs[0].name, "search");
    assert_eq!(specs[0].tags, vec!["mcp".to_string()]);
    let result = adapter.execute(&specs[0], json("{\"q\": 1}")).unwrap();
    let expected = json(r#"{"tool": "search", "args": {"q": 1}, "mock": true}"#);
    match stream_of(result) {
        Ok(pieces) => assert!(pieces.len() == 1 && pieces[0].same(&expected)),
        Err(e) => panic!("{e:?}"),
    }
    let elsewhere = CapabilitySpec { source: mcp("http://b"), ..Default::default() };
    assert_eq!(
        adapter.execute(&elsewhere, Json::Null).unwrap_err().to_text(),
        "MCP server not connected"
    );
    let client = McpClient::connect("http://a", &None);
    assert_eq!(client.endpoint, "http://a");
}

#[test]
fn results_come_in_pieces() {
    let going = CapabilityExecution::Async { task_id: "t".to_string() };
    assert_eq!(stream_of(going).unwrap_err().to_text(), "async handle not supported");
    assert_eq!(last_piece(vec![]).unwrap_err().to_text(), "no result from A2A agent");
    assert_eq!(last_piece(vec![Json::Null, Json::Bool(true)]), Ok(Json::Bool(true)));
}

#[test]
fn built_in_tools_are_capabilities() {
    let tools = vec![NativeTool {
        name: "read_file".to_string(),
        description: "reads".to_string(),
        input_schema: json("{}"),
        output_schema: json("{}"),
        streaming: true,
        tags: vec!["files".to_string()],
    }];
    let specs = native_capabilities(&tools);
    assert_eq!(specs.len(), 1);
    assert!(specs[0].streaming);
    assert_eq!(specs[0].source, CapabilitySource::Native { module: "read_file".to_string() });
    assert_eq!(specs[0].tags, vec!["files".to_string()]);
}

#[test]
fn a_directory_holds_one_value_for_a_name() {
    let mut d: Directory<u64> = Directory::new();
    assert_eq!(d.get("a"), None);
    d.put("a", 1);
    d.put("b", 2);
    d.put("a", 3);
    assert_eq!(d.get("a"), Some(&3));
    assert_eq!(d.get("b"), Some(&2));
    assert_eq!(d.entries.len(), 2);
}

#[test]
fn a_task_of_an_agent_comes_to_an_end() {
    let client = A2aClient::new("http://agent");
    let done = client.wait_for_completion("task-1").unwrap();
    assert_eq!(client.stream_task("task-1"), vec![done]);
}

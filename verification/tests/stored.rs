use loom::agent_loop::types::{checkpoint_of, scope_to_text, AgentState, LoopContext};
use loom::checkpoint::{complete_checkpoint, get_tuple, CheckpointConfig};
use loom::clock::Timestamp;
use loom::context::state::CompressionStateSnapshot;
use loom::errors::LoomError;
use loom::json::codec::read_json;
use loom::json::Json;
use loom::llm::{ChatMessage, Role, ToolCall};
use loom::scope::MemoryScope;
use loom::session::{make_record, SessionRecord};
use loom::stored::scope_of_text;

fn json(text: &str) -> Json {
    read_json(text).unwrap()
}

#[test]
fn test_agent_state_backward_compat() {
    let old_format = json(
        r#"{
            "messages": [
                {"role": "system", "content": "you are an agent"},
                {"role": "user", "content": "hello"}
            ],
            "iterations": 3,
            "tool_calls_made": 2,
            "tool_names": ["search", "read_file"]
        }"#,
    );

    let state = AgentState::from_json(&old_format).unwrap();
    assert_eq!(state.iterations, 3);
    assert_eq!(state.tool_calls_made, 2);
    assert_eq!(state.tool_names, vec!["search", "read_file"]);
    assert_eq!(state.messages.len(), 2);

    assert!(state.toolsets.is_empty());
    assert!(state.parent_toolsets.is_empty());
    assert_eq!(state.delegate_depth, 0);
    assert!(state.scope_json.is_none());
    assert!(state.last_user_message.is_none());
}

#[test]
fn test_agent_state_full_roundtrip() {
    let state = AgentState {
        messages: vec![
            ChatMessage::system("sys".to_string()),
            ChatMessage::user("goal".to_string()),
            ChatMessage::assistant("response".to_string()),
        ],
        iterations: 5,
        tool_calls_made: 3,
        tool_names: vec!["t1".to_string(), "t2".to_string()],
        toolsets: vec!["default".to_string()],
        parent_toolsets: vec![],
        delegate_depth: 1,
        parent_agent_id: Some(0),
        scope_json: Some(r#"{"tenant_id":"t1","user_id":"u1"}"#.to_string()),
        last_user_message: Some("goal".to_string()),
        compression_state: None,
    };

    let json = state.to_json();
    let restored = AgentState::from_json(&json).unwrap();

    assert_eq!(restored.iterations, 5);
    assert_eq!(restored.tool_calls_made, 3);
    assert_eq!(restored.toolsets, vec!["default"]);
    assert_eq!(restored.delegate_depth, 1);
    assert_eq!(
        restored.scope_json.as_deref(),
        Some(r#"{"tenant_id":"t1","user_id":"u1"}"#)
    );
    assert_eq!(restored.last_user_message.as_deref(), Some("goal"));
    assert_eq!(restored.messages.last().unwrap().role, Role::Assistant);
    assert_eq!(restored, state);
}

#[test]
fn test_save_checkpoint_persists_full_state() {
    let scope = MemoryScope::new(Some("tenant-1".to_string()), Some("user-1".to_string()));
    let ctx = LoopContext {
        messages: vec![
            ChatMessage::system("sys".to_string()),
            ChatMessage::user("hi".to_string()),
        ],
        iterations: 2,
        tool_calls_made: 1,
        tool_names: vec!["search".to_string()],
        thread_id: "thread-test".to_string(),
        last_checkpoint_id: None,
        agent_id: 77,
        parent_agent_id: None,
        delegate_depth: 0,
        toolsets: vec!["default".to_string()],
        parent_toolsets: vec![],
    };
    let now = Timestamp { secs: 1_700_000_000, nanos: 0 };
    let state = AgentState::from_runtime(&ctx, &scope, None);
    let cp = complete_checkpoint(
        checkpoint_of(&ctx, &scope, state.to_json(), "step", now),
        now,
    );
    let stored = vec![cp.clone()];

    let config = CheckpointConfig::new("thread-test".to_string())
        .with_tenant(Some("tenant-1".to_string()), Some("user-1".to_string()));
    let tuple = get_tuple(&stored, &[], &config).unwrap();
    assert_eq!(tuple.checkpoint.id, cp.id);

    let state = AgentState::from_json(&tuple.checkpoint.channel_values).unwrap();
    assert_eq!(state.iterations, 2);
    assert_eq!(state.tool_calls_made, 1);
    assert_eq!(state.tool_names, vec!["search"]);
    assert_eq!(state.toolsets, vec!["default"]);
    assert_eq!(state.delegate_depth, 0);
    assert!(state.scope_json.is_some());
    assert_eq!(state.last_user_message.as_deref(), Some("hi"));
    assert_eq!(scope_of_text(state.scope_json.as_deref().unwrap()), Some(scope));
}

#[test]
fn all_of_a_run_survives_its_text() {
    let call = ToolCall {
        id: "c1".to_string(),
        name: "read_file".to_string(),
        arguments: json(r#"{"path": "a.rs", "lines": [1, 2]}"#),
    };
    let state = AgentState {
        messages: vec![
            ChatMessage::assistant_with_tool_calls(vec![call]),
            ChatMessage::tool("c1".to_string(), "fn main() {}".to_string()),
        ],
        iterations: 9,
        tool_calls_made: 1,
        tool_names: vec!["read_file".to_string()],
        toolsets: vec!["file".to_string()],
        parent_toolsets: vec!["file".to_string(), "web".to_string()],
        delegate_depth: 2,
        parent_agent_id: Some(0x0123_4567_89ab_cdef_0123_4567_89ab_cdef),
        scope_json: None,
        last_user_message: None,
        compression_state: Some(CompressionStateSnapshot {
            previous_summary: Some("so far".to_string()),
            cooldown_remaining_secs: Some(30),
            consecutive_failures: 2,
            terminal_failure: true,
        }),
    };
    let text = state.to_json().text();
    assert!(text.contains("01234567-89ab-cdef-0123-456789abcdef"));
    assert_eq!(AgentState::from_json(&json(&text)), Ok(state));
}

#[test]
fn what_is_no_run_is_refused() {
    for text in [
        "null",
        "[]",
        r#"{"iterations": 1, "tool_calls_made": 0, "tool_names": []}"#,
        r#"{"messages": [], "iterations": -1, "tool_calls_made": 0, "tool_names": []}"#,
        r#"{"messages": [], "iterations": 1, "tool_calls_made": 0, "tool_names": [1]}"#,
        r#"{"messages": [{"role": "judge"}], "iterations": 1, "tool_calls_made": 0, "tool_names": []}"#,
        r#"{"messages": [], "iterations": 1, "tool_calls_made": 0, "tool_names": [], "delegate_depth": 4294967296}"#,
        r#"{"messages": [], "iterations": 1, "tool_calls_made": 0, "tool_names": [], "parent_agent_id": "x"}"#,
        r#"{"messages": [], "iterations": 1, "tool_calls_made": 0, "tool_names": [], "compression_state": []}"#,
    ] {
        match AgentState::from_json(&json(text)) {
            Err(LoomError::Serialization(_)) => {}
            other => panic!("{text}: {other:?}"),
        }
    }
    let later = r#"{"messages": [], "iterations": 1, "tool_calls_made": 0, "tool_names": [], "unknown": 1, "compression_state": {}}"#;
    let state = AgentState::from_json(&json(later)).unwrap();
    assert_eq!(state.compression_state, Some(CompressionStateSnapshot::default()));
}

#[test]
fn a_scope_is_read_from_its_text() {
    for scope in [
        MemoryScope::new(None, None),
        MemoryScope::user("a\"b\\c\n\u{1}".to_string()),
        MemoryScope::tenant_user("公司".to_string(), "".to_string()),
    ] {
        let text = scope_to_text(&scope);
        assert_eq!(scope_of_text(&text), Some(scope));
    }
    assert_eq!(scope_of_text("{}"), Some(MemoryScope::new(None, None)));
    assert_eq!(scope_of_text(r#"{"tenant_id": 1}"#), None);
    assert_eq!(scope_of_text("[]"), None);
    assert_eq!(scope_of_text("not json"), None);
}

#[test]
fn a_session_survives_its_text() {
    let scope = MemoryScope::user("alice".to_string());
    let msgs = vec![
        ChatMessage::user("hello".to_string()),
        ChatMessage::assistant("hi".to_string()),
    ];
    let record = make_record(&scope, &msgs, 1_700_000_000);
    let text = record.to_json().text();
    assert_eq!(SessionRecord::from_json(&json(&text)), Some(record));
    let old = r#"{"title": "t", "messages": [], "updated_at": 1}"#;
    assert_eq!(SessionRecord::from_json(&json(old)).unwrap().tenant_id, None);
    assert_eq!(SessionRecord::from_json(&json(r#"{"title": "t", "messages": []}"#)), None);
}

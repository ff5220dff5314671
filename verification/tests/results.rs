use loom::agent::{AgentErrorKind, AgentOutput};
use loom::ids::{hash_hex, hash_text};
use loom::json::codec::read_json;
use loom::json::Json;
use loom::llm::{ChatMessage, ToolCall};
use loom::result::{
    extract_json_payload, looks_like_error_output, ErrorClassification, SubagentResult,
    ToolExecutionSummary, ToolTrace,
};
use loom::text::{
    decimal_text, hex16, join_text, replace_text, take_last_text, take_text, text_contains,
    trim_text,
};

#[test]
fn test_error_classification() {
    assert_eq!(ErrorClassification::from_error(""), ErrorClassification::NoError);
    assert_eq!(
        ErrorClassification::from_error("tool call failed"),
        ErrorClassification::ToolError
    );
    assert_eq!(
        ErrorClassification::from_error("request timed out"),
        ErrorClassification::Timeout
    );
    assert_eq!(
        ErrorClassification::from_error("model api error"),
        ErrorClassification::ModelError
    );
}

#[test]
fn errors_are_classified_whatever_their_case() {
    assert_eq!(ErrorClassification::from_error("REQUEST TIMED OUT"), ErrorClassification::Timeout);
    assert_eq!(AgentErrorKind::from_error_message("Request Timed Out"), AgentErrorKind::Timeout);
    assert_eq!(AgentErrorKind::from_error_message(""), AgentErrorKind::NoError);
}

#[test]
fn result_test_extract_json_direct() {
    let payload = extract_json_payload(r#"{"key": "value"}"#);
    assert!(payload.is_some());
    assert_eq!(payload.unwrap().str_field("key"), Some("value"));
}

#[test]
fn test_extract_json_codeblock() {
    let response = "Here is the result:\n```json\n{\"status\": \"ok\"}\n```";
    let payload = extract_json_payload(response);
    assert!(payload.is_some());
    assert_eq!(payload.unwrap().str_field("status"), Some("ok"));
}

#[test]
fn no_payload_is_found_where_there_is_none() {
    assert_eq!(extract_json_payload("nothing to see"), None);
    assert_eq!(extract_json_payload("} upside down {"), None);
    let list = extract_json_payload(r#"Here: [{"a":1},{"b":2}]"#).unwrap();
    assert!(matches!(list, Json::Array(items) if items.len() == 2));
    assert!(extract_json_payload(r#"See [1]: {"a":1}"#).unwrap().get("a").is_some());
    assert!(extract_json_payload(r#"[1] {"a":1} [2]"#).unwrap().get("a").is_some());
}

#[test]
fn test_subagent_result_success() {
    let result =
        SubagentResult::from_success("done".to_string(), 5, 3, &["read_file".to_string()]);
    assert!(result.success);
    assert_eq!(result.usage.iterations, 5);
    assert_eq!(result.tool_summary.total_calls(), 1);
    assert!(!result.result_hash.is_empty());
}

#[test]
fn test_tool_execution_summary() {
    let names =
        vec!["read_file".to_string(), "read_file".to_string(), "write_file".to_string()];
    let summary = ToolExecutionSummary::from_tool_names(&names);
    assert_eq!(summary.total_calls(), 3);
}

#[test]
fn a_long_answer_is_cut() {
    let long = format!("{}the end", "x".repeat(93));
    let result = SubagentResult::from_success(long, 1, 0, &[]);
    let cut = result.clone().with_summary_budget(7);
    assert_eq!(cut.summary, "...[truncated, 100 chars total]\nthe end");
    assert_eq!(cut.result_hash, hash_hex(&cut.summary));
    assert_eq!(result.clone().with_summary_budget(0), result);
}

#[test]
fn a_failure_says_why() {
    let result = SubagentResult::from_error("request timed out", 2, 1);
    assert!(!result.success);
    assert_eq!(result.error_message.as_deref(), Some("request timed out"));
    assert_eq!(result.error_classification, ErrorClassification::Timeout);
    let out = AgentOutput::failure("model api error".to_string(), 1, 2);
    assert!(!out.success);
    assert_eq!(out.error_kind, AgentErrorKind::ModelError);
}

#[test]
fn a_trace_holds_the_last_calls() {
    let mut msgs = Vec::new();
    for i in 0..3 {
        msgs.push(ChatMessage::assistant_with_tool_calls(vec![ToolCall {
            id: format!("c{i}"),
            name: format!("tool{i}"),
            arguments: read_json("{}").unwrap(),
        }]));
        msgs.push(ChatMessage::tool(format!("c{i}"), format!("result {i}")));
    }
    let trace = ToolTrace::from_messages(&msgs, 2);
    assert_eq!(trace.entries.len(), 2);
    assert_eq!(trace.entries[0].tool, "tool1");
    assert_eq!(trace.entries[1].tool, "tool2");
    assert_eq!(trace.entries[1].preview, "result 2");
    assert!(trace.to_json().get("entries").is_some());
}

#[test]
fn error_outputs_are_seen() {
    assert!(looks_like_error_output(r#"{"error": "broken"}"#));
    assert!(!looks_like_error_output(r#"{"value": 1}"#));
}

#[test]
fn texts_are_cut_and_joined() {
    assert_eq!(take_text("héllo", 2), "hé");
    assert_eq!(take_last_text("héllo", 2), "lo");
    assert_eq!(trim_text(" \t a b \n"), "a b");
    assert_eq!(join_text(&["a".to_string(), "b".to_string()], ", "), "a, b");
    assert_eq!(replace_text("a{x}b{x}", "{x}", "1"), "a1b1");
    assert_eq!(decimal_text(u64::MAX), "18446744073709551615");
    assert_eq!(hex16(255), "00000000000000ff");
    assert!(text_contains("abcabd", "abd"));
    assert!(!text_contains("abcabd", "abe"));
}

#[test]
fn fingerprints_tell_texts_apart() {
    assert_eq!(hash_text("a"), hash_text("a"));
    assert_ne!(hash_text("a"), hash_text("b"));
    assert_eq!(hash_hex("a").len(), 16);
}

#[test]
fn values_are_written_and_read() {
    let value = read_json(r#"{"b": [1, 2.5, null, true], "a": "x", "c": 18446744073709551615}"#);
    let value = value.unwrap();
    assert_eq!(value.get("c"), Some(&Json::Large(u64::MAX)));
    let again = read_json(&value.text()).unwrap();
    assert!(value.same(&again));
    assert_eq!(value.text(), r#"{"a":"x","b":[1,2.5,null,true],"c":18446744073709551615}"#);
    assert!(read_json("{").is_err());
    assert!(read_json("[1, 2]").unwrap().same(&Json::array(vec![Json::Int(1), Json::count(2)])));
    assert!(!read_json("[1, 2]").unwrap().same(&read_json("[2, 1]").unwrap()));
}

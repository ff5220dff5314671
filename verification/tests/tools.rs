use loom::api_retry::{after_failure, compute_delay, recover, timeout_error, RecoveryStep, RetryStep};
use loom::capability::{
    capability_to_tool_def, CapabilityExecution, CapabilitySpec, ToolContext,
};
use loom::config::{ApiRetryConfig, GuardrailConfig};
use loom::errors::{LlmApiError, LlmErrorKind, LoomError, ToolFailureKind};
use loom::json::codec::read_json;
use loom::json::Json;
use loom::llm::ToolCall;
use loom::scope::MemoryScope;
use loom::tools::defs::{interrupt_tool_def, spawn_agent_tool_def};
use loom::tools::dispatch::{
    arguments_of, executed_result, is_spawn_call, missing_result, spawned_result,
};
use loom::tools::guardrails::{GuardrailVerdict, ToolGuardrailController};
use loom::tools::resolution::{assemble_tools, blocked_for_child, resolve_toolsets, Toolsets};

fn json(text: &str) -> Json {
    read_json(text).unwrap()
}

fn make_call(name: &str, args: &str) -> ToolCall {
    ToolCall { id: format!("call_{}", name), name: name.to_string(), arguments: json(args) }
}

fn api_error(kind: LlmErrorKind, retry_after_secs: Option<u64>) -> LlmApiError {
    LlmApiError { kind, status_code: Some(429), message: "rate limited".into(), retry_after_secs }
}

#[test]
fn test_compute_delay_rate_limit_with_retry_after() {
    let config = ApiRetryConfig::default();
    let err = LlmApiError {
        kind: LlmErrorKind::RateLimit,
        status_code: Some(429),
        message: "rate limited".into(),
        retry_after_secs: Some(10),
    };
    let delay = compute_delay(&err, &config, 0);
    assert_eq!(delay, 10_000);
}

#[test]
fn test_compute_delay_exponential_backoff() {
    let config =
        ApiRetryConfig { base_delay_ms: 1000, max_delay_ms: 30000, ..Default::default() };
    let err = LlmApiError {
        kind: LlmErrorKind::ServerError,
        status_code: Some(500),
        message: "internal error".into(),
        retry_after_secs: None,
    };
    assert_eq!(compute_delay(&err, &config, 0), 1000);
    assert_eq!(compute_delay(&err, &config, 1), 2000);
    assert_eq!(compute_delay(&err, &config, 2), 4000);
    assert_eq!(compute_delay(&err, &config, 5), 30000);
}

#[test]
fn a_wait_never_exceeds_its_limit() {
    let config =
        ApiRetryConfig { base_delay_ms: 1, max_delay_ms: u64::MAX, ..Default::default() };
    let err = api_error(LlmErrorKind::ServerError, None);
    assert_eq!(compute_delay(&err, &config, 63), 1u128 << 63);
    assert_eq!(compute_delay(&err, &config, 64), u64::MAX as u128);
    assert_eq!(compute_delay(&err, &config, u32::MAX), u64::MAX as u128);
}

#[test]
fn failures_are_made_up_for_a_few_times() {
    let config = ApiRetryConfig { max_retries: 2, ..Default::default() };
    let passing = || LoomError::LlmApi(api_error(LlmErrorKind::Connection, None));
    assert_eq!(after_failure(passing(), &config, 0), RetryStep::Wait(1000));
    assert_eq!(after_failure(passing(), &config, 1), RetryStep::Wait(2000));
    assert_eq!(after_failure(passing(), &config, 2), RetryStep::GiveUp(passing()));
    let lasting = || LoomError::LlmApi(api_error(LlmErrorKind::Authentication, None));
    assert_eq!(after_failure(lasting(), &config, 0), RetryStep::GiveUp(lasting()));
    assert_eq!(
        after_failure(LoomError::Cancelled, &config, 0),
        RetryStep::GiveUp(LoomError::Cancelled)
    );
    assert!(matches!(after_failure(timeout_error(&config), &config, 0), RetryStep::Wait(_)));
}

#[test]
fn a_long_conversation_is_compressed_once() {
    let overflow = || LoomError::LlmApi(api_error(LlmErrorKind::ContextOverflow, None));
    let config = ApiRetryConfig::default();
    assert_eq!(after_failure(overflow(), &config, 0), RetryStep::GiveUp(overflow()));
    assert_eq!(recover(overflow(), false), RecoveryStep::Compress);
    assert_eq!(recover(overflow(), true), RecoveryStep::Fail(overflow()));
    assert_eq!(recover(LoomError::Timeout, false), RecoveryStep::Fail(LoomError::Timeout));
}

#[test]
fn test_deduplicate() {
    let config = GuardrailConfig::default();
    let ctrl = ToolGuardrailController::new(config);
    let calls = vec![
        make_call("read", r#"{"path": "a.txt"}"#),
        make_call("read", r#"{"path": "a.txt"}"#),
        make_call("read", r#"{"path": "b.txt"}"#),
    ];
    let result = ctrl.deduplicate(calls);
    assert_eq!(result.len(), 2);
    assert_eq!(result[0].arguments, json(r#"{"path": "a.txt"}"#));
    assert_eq!(result[1].arguments, json(r#"{"path": "b.txt"}"#));
}

#[test]
fn calls_are_the_same_by_name_and_arguments() {
    let ctrl = ToolGuardrailController::new(GuardrailConfig::default());
    let calls = vec![
        make_call("read", r#"{"path": "a", "line": 1}"#),
        make_call("write", r#"{"path": "a", "line": 1}"#),
        make_call("read", r#"{"line": 1, "path": "a"}"#),
        make_call("read", r#"{"path": "a", "line": 2}"#),
    ];
    let kept = ctrl.deduplicate(calls);
    assert_eq!(kept.len(), 3);
    assert_eq!(kept[1].name, "write");
    assert_eq!(kept[2].arguments, json(r#"{"path": "a", "line": 2}"#));
}

#[test]
fn test_loop_detection_halt() {
    let config =
        GuardrailConfig { max_duplicate_calls: 3, loop_window: 10, ..Default::default() };
    let mut ctrl = ToolGuardrailController::new(config);
    let call = make_call("read_file", r#"{"path": "a.txt"}"#);
    let verdict = ctrl.check_and_record(&[call.clone()]);
    assert_eq!(verdict, GuardrailVerdict::Pass);
    let verdict = ctrl.check_and_record(&[call.clone()]);
    assert!(matches!(verdict, GuardrailVerdict::Warn(_)));
    let verdict = ctrl.check_and_record(&[call.clone()]);
    assert!(matches!(verdict, GuardrailVerdict::Halt(_)));
}

#[test]
fn the_window_of_calls_is_bounded() {
    let config = GuardrailConfig { loop_window: 2, ..Default::default() };
    let mut ctrl = ToolGuardrailController::new(config);
    for i in 0..5 {
        let args = format!("{{\"path\": \"{i}\"}}");
        assert_eq!(
            ctrl.check_and_record(&[make_call("read_file", &args)]),
            GuardrailVerdict::Pass
        );
        assert!(ctrl.call_window.len() <= 2);
    }
}

#[test]
fn a_warning_hides_no_stop() {
    let config =
        GuardrailConfig { max_duplicate_calls: 3, loop_window: 10, ..Default::default() };
    let mut ctrl = ToolGuardrailController::new(config);
    let a = || make_call("read_file", r#"{"path": "a"}"#);
    let b = || make_call("read_file", r#"{"path": "b"}"#);
    ctrl.check_and_record(&[b()]);
    ctrl.check_and_record(&[b()]);
    ctrl.check_and_record(&[a()]);
    assert!(matches!(ctrl.check_and_record(&[a(), b()]), GuardrailVerdict::Halt(_)));
}

#[test]
fn calls_behind_a_warning_are_counted() {
    let config = GuardrailConfig { max_web_searches: 1, ..Default::default() };
    let config = GuardrailConfig { max_duplicate_calls: 2, loop_window: 10, ..config };
    let mut ctrl = ToolGuardrailController::new(config);
    let calls = [make_call("read_file", r#"{"path": "a"}"#), make_call("web_search", "{}")];
    assert!(matches!(ctrl.check_and_record(&calls), GuardrailVerdict::Warn(_)));
    assert_eq!(ctrl.web_search_count, 1);
    assert_eq!(ctrl.call_window.len(), 2);
}

#[test]
fn test_consecutive_failures_halt() {
    let config = GuardrailConfig { max_consecutive_failures: 3, ..Default::default() };
    let mut ctrl = ToolGuardrailController::new(config);
    for _ in 0..2 {
        let verdict = ctrl.record_results(&[("read".to_string(), true)]);
        assert_eq!(verdict, GuardrailVerdict::Pass);
    }
    let verdict = ctrl.record_results(&[("read".to_string(), true)]);
    assert!(matches!(verdict, GuardrailVerdict::Halt(_)));
}

#[test]
fn test_success_resets_failure_count() {
    let config = GuardrailConfig { max_consecutive_failures: 3, ..Default::default() };
    let mut ctrl = ToolGuardrailController::new(config);
    ctrl.record_results(&[("read".to_string(), true)]);
    ctrl.record_results(&[("read".to_string(), true)]);
    ctrl.record_results(&[("read".to_string(), false)]);
    ctrl.record_results(&[("read".to_string(), true)]);
    ctrl.record_results(&[("read".to_string(), true)]);
    let verdict = ctrl.record_results(&[("read".to_string(), true)]);
    assert!(matches!(verdict, GuardrailVerdict::Halt(_)));
}

#[test]
fn test_validate_tool_names() {
    let config = GuardrailConfig::default();
    let ctrl = ToolGuardrailController::new(config);
    let calls = vec![make_call("read", "{}"), make_call("nonexistent", "{}")];
    let valid_names = vec!["read".to_string()];
    let (valid, invalid) = ctrl.validate_tool_names(calls, &valid_names);
    assert_eq!(valid.len(), 1);
    assert_eq!(valid[0].name, "read");
    assert_eq!(invalid.len(), 1);
    assert!(invalid[0].1.contains("nonexistent"));
}

#[test]
fn budgets_stop_an_agent() {
    let config = GuardrailConfig { max_subagents: 1, ..Default::default() };
    let mut ctrl = ToolGuardrailController::new(config);
    let call = make_call("spawn_agent", r#"{"goal": "a"}"#);
    assert_eq!(ctrl.check_and_record(&[call.clone()]), GuardrailVerdict::Pass);
    assert!(matches!(ctrl.check_and_record(&[call]), GuardrailVerdict::Halt(_)));
}

#[test]
fn children_have_no_more_toolsets_than_their_parents() {
    let asked = vec!["web".to_string(), "files".to_string()];
    let parent = vec!["files".to_string()];
    assert_eq!(resolve_toolsets(&asked, &parent, 1), Toolsets::Only(vec!["files".to_string()]));
    assert_eq!(resolve_toolsets(&asked, &parent, 0), Toolsets::Only(asked.clone()));
    assert_eq!(resolve_toolsets(&[], &[], 0), Toolsets::All);
    let other = vec!["web".to_string()];
    assert_eq!(resolve_toolsets(&other, &parent, 1), Toolsets::Only(Vec::new()));
}

#[test]
fn tools_are_offered_by_depth() {
    let specs = vec![CapabilitySpec { name: "read_file".to_string(), ..Default::default() }];
    let names = |depth: u32| -> Vec<String> {
        assemble_tools(&specs, true, depth, 3).into_iter().map(|t| t.name).collect()
    };
    assert!(names(0).contains(&"read_file".to_string()));
    assert!(names(0).contains(&"spawn_agent".to_string()));
    assert!(!names(3).contains(&"spawn_agent".to_string()));
    assert!(!blocked_for_child("read_file", 5));
}

#[test]
fn tools_are_described() {
    let spawn = spawn_agent_tool_def();
    assert_eq!(spawn.name, "spawn_agent");
    assert!(spawn.parameters.get("properties").unwrap().get("goal").is_some());
    let ask = interrupt_tool_def();
    assert_eq!(ask.name, "interrupt");
    let spec = CapabilitySpec {
        name: "n".to_string(),
        description: "d".to_string(),
        input_schema: json(r#"{"type": "object"}"#),
        ..Default::default()
    };
    let def = capability_to_tool_def(&spec);
    assert_eq!((def.name.as_str(), def.description.as_str()), ("n", "d"));
    assert_eq!(def.parameters, json(r#"{"type": "object"}"#));
}

#[test]
fn calls_are_answered() {
    let call = make_call("read", r#"{"path": "a"}"#);
    assert!(!is_spawn_call(&call));
    assert!(is_spawn_call(&make_call("spawn_agent", "{}")));
    assert_eq!(arguments_of(&call), json(r#"{"path": "a"}"#));
    let done = executed_result(&call, Ok(CapabilityExecution::Sync(json("{\"a\": 1}"))));
    assert_eq!(done.tool_call_id, "call_read");
    assert_eq!(done.content, "{\"a\":1}");
    assert!(!done.is_error);
    let failed = executed_result(&call, Err(LoomError::ToolExecution("broken".to_string())));
    assert!(failed.is_error);
    assert!(failed.content.contains("broken"));
    let missing = missing_result(&call, &LoomError::CapabilityNotFound("read".to_string()));
    assert!(missing.is_error);
    let spawned = spawned_result(&call, Ok(json("{\"ok\": true}")));
    assert_eq!(spawned.content, "{\"ok\":true}");
}

#[test]
fn tools_are_called_on_behalf_of_somebody() {
    let scope = MemoryScope::tenant_user("t".to_string(), "u".to_string());
    let named =
        ToolContext::for_run(&Some(scope.clone()), &Some("session".to_string()), "thread");
    assert_eq!(named.scope, scope);
    assert_eq!(named.session_id, "session");
    let unnamed = ToolContext::for_run(&None, &None, "thread");
    assert_eq!(unnamed.scope, MemoryScope::default());
    assert_eq!(unnamed.session_id, "thread");
}

#[test]
fn failures_of_tools_are_told_apart() {
    assert_eq!(
        ToolFailureKind::from_error_message("Connection RESET by peer"),
        ToolFailureKind::Transient
    );
    assert_eq!(ToolFailureKind::from_error_message("no such file"), ToolFailureKind::Permanent);
}

#[test]
fn errors_have_texts() {
    let quoted = LoomError::AdapterNotFound("mcp:\"x\"".to_string());
    assert_eq!(quoted.to_text(), "adapter not found for source: \"mcp:\\\"x\\\"\"");
    let api = LoomError::LlmApi(api_error(LlmErrorKind::RateLimit, None));
    assert_eq!(api.to_text(), "LLM API error: rate_limit (status=Some(429)): rate limited");
    let id = LoomError::AgentNotFound(1);
    assert_eq!(id.to_text(), "agent not found: 00000000-0000-0000-0000-000000000001");
    let step = LoomError::InvalidStateTransition { from: "Created".into(), to: "Paused".into() };
    assert_eq!(step.to_text(), "invalid agent state transition: Created -> Paused");
    for (e, t) in [
        (LoomError::CapabilityNotFound("x".into()), "capability not found: x"),
        (LoomError::CapabilityAlreadyRegistered("x".into()), "capability already registered: x"),
        (LoomError::IsolationNotSupported("x".into()), "isolation level not supported: \"x\""),
        (LoomError::ToolExecution("x".into()), "tool execution failed: x"),
        (LoomError::AgentExecution("x".into()), "agent execution failed: x"),
        (LoomError::Serialization("x".into()), "serialization error: x"),
        (LoomError::Io("x".into()), "io error: x"),
        (LoomError::Timeout, "timeout"),
        (LoomError::Cancelled, "cancelled"),
        (LoomError::GuardrailHalt("x".into()), "guardrail halt: x"),
        (LoomError::Other("x".into()), "x"),
    ] {
        assert_eq!(e.to_text(), t);
    }
}

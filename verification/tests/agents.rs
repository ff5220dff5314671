use loom::agent_loop::entry::{
    continued_messages, opening_messages, runner_output, should_load_memory, start_run,
};
use loom::agent_loop::resume::{
    finish_summary, lookup, no_checkpoint, no_checkpoint_of, plan_resume, plan_take_up,
    ResumeCommand, ResumePlan, TakeUpPlan, SUMMARY_REQUEST, UNKNOWN_RESULT,
};
use loom::agent_loop::turn::{
    after_store, begin_iteration, begin_tools, checkpoint_due, end_events, end_tools,
    max_iterations_value, push_recall, start_events, take_response, usage_of, ToolStep, TurnPlan,
};
use loom::agent_loop::types::{
    checkpoint_of, find_interrupt_call, finished_event, last_turn_pair, latest_user_text,
    outcome_of, round_activity, run_result, scope_to_text, tool_activity, AgentEvent,
    AgentRunOutcome, AgentState, LoopContext,
};
use loom::clock::{seconds_text, Timestamp};
use loom::config::{AgentLoopConfig, GuardrailConfig, PromptConfig};
use loom::errors::LoomError;
use loom::isolation::{
    select_isolation, spec_of_request, AgentLaunchRequest, IsolationLevel,
};
use loom::json::codec::read_json;
use loom::json::Json;
use loom::lifecycle::{AgentHandle, AgentState as Stage, AgentTable};
use loom::llm::{ChatMessage, ChatResponse, Role, TokenUsage, ToolCall, ToolDefinition};
use loom::prompt::{build_system_prompt, compose_prompt, load_context_files, make_date_line};
use loom::result::ProgressEvent;
use loom::scope::MemoryScope;
use loom::tools::dispatch::ToolCallResult;
use loom::tools::guardrails::ToolGuardrailController;

fn json(text: &str) -> Json {
    read_json(text).unwrap()
}

fn call(id: &str, name: &str, args: &str) -> ToolCall {
    ToolCall { id: id.to_string(), name: name.to_string(), arguments: json(args) }
}

fn user(text: &str) -> ChatMessage {
    ChatMessage::user(text.to_string())
}

fn run(messages: Vec<ChatMessage>) -> LoopContext {
    start_run(messages, 5, None, 0, &["default".to_string()], &[])
}

fn response(content: Option<&str>, tool_calls: Vec<ToolCall>) -> ChatResponse {
    ChatResponse { content: content.map(|c| c.to_string()), tool_calls, usage: None }
}

fn guard() -> ToolGuardrailController {
    ToolGuardrailController::new(GuardrailConfig::default())
}

#[test]
fn a_run_begins_with_the_goal() {
    assert!(should_load_memory(0));
    assert!(!should_load_memory(1));
    let msgs = opening_messages("prompt".into(), "known".into(), "do it", 0);
    assert_eq!(msgs.len(), 3);
    assert_eq!(msgs[1].content.as_deref(), Some("known"));
    assert_eq!(msgs[2].content.as_deref(), Some("Goal: do it"));
    assert_eq!(opening_messages("prompt".into(), "known".into(), "do it", 1).len(), 2);
    assert_eq!(opening_messages("prompt".into(), String::new(), "do it", 0).len(), 2);
    let more = continued_messages(msgs, "and that");
    assert_eq!(more.len(), 4);
    assert_eq!(more[3].content.as_deref(), Some("and that"));
    let ctx = run(more);
    assert_eq!(ctx.thread_id, "00000000-0000-0000-0000-000000000005");
    assert_eq!(ctx.iterations, 0);
}

#[test]
fn rounds_are_bounded() {
    let mut ctx = run(vec![user("x")]);
    assert!(!begin_iteration(&mut ctx, 2));
    assert!(!begin_iteration(&mut ctx, 2));
    assert!(begin_iteration(&mut ctx, 2));
    assert_eq!(ctx.iterations, 3);
    let value = max_iterations_value(&ctx, 2);
    assert_eq!(value.str_field("type"), Some("max_iterations"));
    assert_eq!(value.str_field("message"), Some("已达到最大迭代次数（2），请选择下一步操作："));
    assert_eq!(value.get("max_iterations"), Some(&Json::Int(2)));
}

#[test]
fn an_answer_ends_a_run() {
    let mut ctx = run(vec![user("x")]);
    let mut g = guard();
    match take_response(&mut ctx, &response(Some("done"), vec![]), &mut g, &[]) {
        TurnPlan::Finish(t) => assert_eq!(t, "done"),
        other => panic!("{other:?}"),
    }
    assert_eq!(ctx.messages.len(), 2);
    match take_response(&mut ctx, &response(None, vec![]), &mut g, &[]) {
        TurnPlan::Finish(t) => assert_eq!(t, "(empty response)"),
        other => panic!("{other:?}"),
    }
}

#[test]
fn a_human_is_asked_first() {
    let mut ctx = run(vec![user("x")]);
    let calls =
        vec![call("a", "read", "{}"), call("b", "interrupt", r#"{"value": {"question": "?"}}"#)];
    assert_eq!(find_interrupt_call(&calls).unwrap().id, "b");
    let plan = take_response(&mut ctx, &response(None, calls), &mut guard(), &[]);
    assert_eq!(plan, TurnPlan::Interrupt(json(r#"{"question": "?"}"#)));
    assert_eq!(ctx.tool_calls_made, 2);
    assert_eq!(ctx.messages.last().unwrap().role, Role::Assistant);
}

#[test]
fn only_known_tools_are_called() {
    let mut ctx = run(vec![user("x")]);
    let names = vec!["read".to_string()];
    let calls = vec![call("a", "read", "{}"), call("b", "other", "{}")];
    let mut g = guard();
    let (calls, rejected) =
        match take_response(&mut ctx, &response(None, calls), &mut g, &names) {
            TurnPlan::Execute { calls, rejected, warning } => {
                assert_eq!(warning, None);
                (calls, rejected)
            }
            other => panic!("{other:?}"),
        };
    assert_eq!(calls.len(), 1);
    assert_eq!(rejected.len(), 1);
    begin_tools(&mut ctx, &calls, rejected.len());
    assert_eq!(ctx.tool_calls_made, 2);
    assert_eq!(ctx.tool_names, vec!["read".to_string()]);
    let result = ToolCallResult {
        tool_call_id: "a".into(),
        name: "read".into(),
        content: "text".into(),
        is_error: false,
    };
    assert_eq!(start_events(&calls).len(), 1);
    assert_eq!(
        end_events(std::slice::from_ref(&result))[0],
        ProgressEvent::ToolEnd { tool: "read".into(), result: "text".into(), is_error: false }
    );
    assert!(end_tools(&mut ctx, &[result], &rejected, None, &mut g).is_none());
    let n = ctx.messages.len();
    assert_eq!(ctx.messages[n - 2].content.as_deref(), Some("text"));
    assert_eq!(ctx.messages[n - 1].tool_call_id.as_deref(), Some("b"));
}

#[test]
fn a_warning_reaches_the_model() {
    let mut ctx = run(vec![user("x")]);
    let names = vec!["read_file".to_string()];
    let mut g = ToolGuardrailController::new(GuardrailConfig {
        max_duplicate_calls: 2,
        ..Default::default()
    });
    let calls = vec![call("a", "read_file", "{}")];
    let (rejected, warning) =
        match take_response(&mut ctx, &response(None, calls), &mut g, &names) {
            TurnPlan::Execute { rejected, warning, .. } => (rejected, warning),
            other => panic!("{other:?}"),
        };
    let told = warning.clone().unwrap();
    assert!(told.starts_with("Warning: tool 'read_file'"));
    let result = ToolCallResult {
        tool_call_id: "a".into(),
        name: "read_file".into(),
        content: "text".into(),
        is_error: false,
    };
    assert!(end_tools(&mut ctx, &[result], &rejected, warning, &mut g).is_none());
    let last = ctx.messages.last().unwrap();
    assert_eq!(last.role, Role::System);
    assert_eq!(last.content, Some(told));
}

#[test]
fn no_tool_is_called_unless_the_run_is_stored() {
    let calls = vec![call("a", "read", "{}")];
    assert_eq!(after_store(Ok("cp".into()), calls.clone()), ToolStep::Call(calls.clone()));
    let e = LoomError::Timeout;
    assert_eq!(after_store(Err(LoomError::Timeout), calls), ToolStep::Abort(e));
}

#[test]
fn unknown_tools_are_told_to_the_model() {
    let mut ctx = run(vec![user("x")]);
    let calls = vec![call("b", "other", "{}")];
    let plan = take_response(&mut ctx, &response(None, calls), &mut guard(), &[]);
    assert_eq!(plan, TurnPlan::Skip);
    assert_eq!(ctx.messages.len(), 3);
    assert_eq!(ctx.messages[2].role, Role::Tool);
    assert_eq!(ctx.tool_calls_made, 1);
}

#[test]
fn a_series_of_failures_ends_a_run() {
    let mut ctx = run(vec![user("x")]);
    let mut g =
        ToolGuardrailController::new(GuardrailConfig { max_consecutive_failures: 1, ..Default::default() });
    let result = ToolCallResult {
        tool_call_id: "a".into(),
        name: "read".into(),
        content: "broken".into(),
        is_error: true,
    };
    let halt = end_tools(&mut ctx, &[result], &[], None, &mut g).unwrap();
    assert!(halt.starts_with("Execution halted by guardrail: "));
    assert!(ctx.messages.last().unwrap().content.as_ref().unwrap().contains("[GUARDRAIL HALT]"));
}

#[test]
fn checkpoints_are_stored_now_and_again() {
    assert!(checkpoint_due(4, 2));
    assert!(!checkpoint_due(3, 2));
    assert!(!checkpoint_due(3, 0));
    let ctx = run(vec![user("x")]);
    let scope = MemoryScope::tenant_user("t".into(), "u".into());
    let now = Timestamp { secs: 9, nanos: 0 };
    let cp = checkpoint_of(&ctx, &scope, json("{\"a\": 1}"), "step", now);
    assert_eq!(cp.thread_id, ctx.thread_id);
    assert_eq!(cp.channel_values, json("{\"a\": 1}"));
    assert_eq!(cp.metadata.source, "step");
    assert_eq!((cp.tenant_id.as_deref(), cp.user_id.as_deref()), (Some("t"), Some("u")));
    assert_eq!(cp.created_at, now);
}

#[test]
fn what_is_recalled_is_added() {
    let mut ctx = run(vec![user("x")]);
    push_recall(&mut ctx, String::new());
    assert_eq!(ctx.messages.len(), 1);
    push_recall(&mut ctx, "known".into());
    assert_eq!(ctx.messages[1].role, Role::System);
    let usage = Some(TokenUsage { prompt_tokens: 3, completion_tokens: 4 });
    assert_eq!(usage_of(&usage, &ctx.messages), (3, 4));
    assert_eq!(usage_of(&None, &ctx.messages).1, 0);
    let pair = last_turn_pair(&[user("q"), ChatMessage::assistant("a".into())]);
    assert_eq!(pair, ("q".to_string(), "a".to_string()));
    assert_eq!(latest_user_text(&ctx.messages).as_deref(), Some("x"));
}

fn stored(messages: Vec<ChatMessage>) -> AgentState {
    let mut ctx = run(messages);
    ctx.iterations = 4;
    ctx.tool_calls_made = 2;
    ctx.tool_names = vec!["read".into()];
    AgentState::from_runtime(&ctx, &MemoryScope::tenant("t".into()), None)
}

#[test]
fn a_run_is_restored_whole() {
    let state = stored(vec![user("x"), ChatMessage::tool("c".into(), "r".into())]);
    assert_eq!(state.last_user_message.as_deref(), Some("x"));
    assert_eq!(state.scope_json, Some(scope_to_text(&MemoryScope::tenant("t".into()))));
    let thread = "00000000-0000-0000-0000-000000000005";
    match plan_take_up(thread, "cp", state).unwrap() {
        TakeUpPlan::Continue(ctx) => {
            assert_eq!(ctx.messages.len(), 2);
            assert_eq!((ctx.iterations, ctx.tool_calls_made), (4, 2));
            assert_eq!(ctx.tool_names, vec!["read".to_string()]);
            assert_eq!(ctx.toolsets, vec!["default".to_string()]);
            assert_eq!(ctx.agent_id, 5);
            assert_eq!(ctx.last_checkpoint_id.as_deref(), Some("cp"));
        }
        other => panic!("{other:?}"),
    }
}

#[test]
fn calls_without_results_are_told() {
    let calls = vec![call("a", "read", "{}"), call("b", "write", "{}")];
    let state = stored(vec![user("x"), ChatMessage::assistant_with_tool_calls(calls)]);
    match plan_take_up("thread", "cp", state).unwrap() {
        TakeUpPlan::Continue(ctx) => {
            assert_eq!(ctx.messages.len(), 4);
            assert_eq!(ctx.messages[3].content.as_deref(), Some(UNKNOWN_RESULT));
            assert_eq!(ctx.messages[3].tool_call_id.as_deref(), Some("b"));
        }
        other => panic!("{other:?}"),
    }
}

#[test]
fn a_run_that_had_answered_is_over() {
    let state = stored(vec![user("x"), ChatMessage::assistant("fine".into())]);
    match plan_take_up("thread", "cp", state).unwrap() {
        TakeUpPlan::Finished(AgentRunOutcome::Finished(r)) => {
            assert_eq!(r.final_response, "fine");
            assert_eq!(r.iterations, 4);
            assert_eq!(r.history.len(), 2);
        }
        other => panic!("{other:?}"),
    }
    let empty = plan_take_up("thread", "cp", stored(vec![]));
    assert_eq!(empty.unwrap_err().to_text(), "checkpoint has empty message history");
}

#[test]
fn the_answer_of_a_human_reaches_the_model() {
    let asked = || {
        vec![
            user("x"),
            ChatMessage::assistant_with_tool_calls(vec![call("q", "interrupt", "{}")]),
        ]
    };
    let cmd = |value: &str| ResumeCommand::new("thread".into(), "cp".into(), json(value));
    match plan_resume(&cmd(r#"{"approved": true}"#), stored(asked())) {
        ResumePlan::Continue(ctx) => {
            assert_eq!(ctx.messages.len(), 3);
            assert_eq!(ctx.messages[2].tool_call_id.as_deref(), Some("q"));
            assert_eq!(ctx.messages[2].content.as_deref(), Some("{\"approved\":true}"));
            assert_eq!(ctx.iterations, 4);
        }
        other => panic!("{other:?}"),
    }
    match plan_resume(&cmd(r#"{"action": "continue"}"#), stored(vec![user("x")])) {
        ResumePlan::Continue(ctx) => assert_eq!(ctx.iterations, 0),
        other => panic!("{other:?}"),
    }
    match plan_resume(&cmd(r#"{"action": "summarize"}"#), stored(vec![user("x")])) {
        ResumePlan::Summarize(ctx) => {
            assert_eq!(ctx.messages[1].content.as_deref(), Some(SUMMARY_REQUEST));
            match finish_summary(ctx, None) {
                AgentRunOutcome::Finished(r) => {
                    assert_eq!(r.final_response, "(empty summary)");
                    assert_eq!(r.iterations, 4);
                    assert_eq!(r.history.len(), 3);
                }
                other => panic!("{other:?}"),
            }
        }
        other => panic!("{other:?}"),
    }
}

#[test]
fn checkpoints_that_are_missing_are_named() {
    assert_eq!(
        no_checkpoint("t", "c").to_text(),
        "checkpoint not found: thread=t, checkpoint=c"
    );
    assert_eq!(
        no_checkpoint_of("t", &Some("c".into())).to_text(),
        "checkpoint not found: thread=t, checkpoint=Some(\"c\")"
    );
    assert_eq!(
        no_checkpoint_of("t", &None).to_text(),
        "checkpoint not found: thread=t, checkpoint=None"
    );
    let config = lookup("t", Some("c"), &MemoryScope::user("u".into()));
    assert_eq!(config.checkpoint_id.as_deref(), Some("c"));
    assert_eq!(config.user_id.as_deref(), Some("u"));
}

#[test]
fn runs_come_to_an_end() {
    let ctx = run(vec![user("x")]);
    let event = finished_event(&ctx, "fine".into(), 7);
    let result = run_result(event).unwrap();
    assert_eq!((result.final_response.as_str(), result.duration_ms), ("fine", 7));
    let output = runner_output(Ok(result));
    assert!(output.success);
    let asked = AgentEvent::Interrupt {
        value: Json::Null,
        checkpoint_id: "c".into(),
        thread_id: "t".into(),
    };
    let outcome = outcome_of(asked, vec![user("x")]);
    assert!(matches!(outcome, AgentRunOutcome::Interrupt { .. }));
    let asked = AgentEvent::Interrupt {
        value: Json::Null,
        checkpoint_id: "c".into(),
        thread_id: "t".into(),
    };
    let failed = runner_output(Err(run_result(asked).unwrap_err()));
    assert!(!failed.success);
    let now = Timestamp { secs: 1, nanos: 0 };
    let before = round_activity(3, now);
    assert_eq!((before.iterations, before.api_call_count), (3, 3));
    let during = tool_activity(&before, &[call("a", "read", "{}")], now);
    assert_eq!(during.current_tool.as_deref(), Some("read"));
    assert_eq!(seconds_text(1500), "1.5");
}

// ---------- prompts ----------

#[test]
fn the_first_part_of_a_prompt_stays_the_same() {
    let config = AgentLoopConfig { system_prompt: String::new(), ..Default::default() };
    let tools = vec![ToolDefinition {
        name: "read".into(),
        description: "reads".into(),
        parameters: json("{}"),
    }];
    let a = build_system_prompt(&config, "a", "", &[], "", "today");
    let b = build_system_prompt(&config, "b", "more", &tools, "files", "tomorrow");
    assert_eq!(a.stable, b.stable);
    assert_ne!(a.joined(), b.joined());
    assert!(b.joined().contains("files"));
    assert!(compose_prompt(&config, "b", "", &tools, "", "d").contains("read"));
}

#[test]
fn a_template_is_filled() {
    let config = AgentLoopConfig {
        system_prompt: "{goal}|{context}|{tools}".into(),
        prompt: PromptConfig {
            identity: String::new(),
            guidance: String::new(),
            tool_rules: String::new(),
            ..Default::default()
        },
        ..Default::default()
    };
    let tools = vec![ToolDefinition {
        name: "read".into(),
        description: "reads".into(),
        parameters: Json::Null,
    }];
    let prompt = compose_prompt(&config, "g", "c", &tools, "", "today");
    assert!(prompt.starts_with("g|c|- read: reads\n\ntoday"));
    let prompt = compose_prompt(&config, "g", "", &[], "", "today");
    assert!(prompt.starts_with("g|(none)|(no tools available)"));
}

#[test]
fn the_first_file_that_is_found_is_read() {
    let found = vec![
        ("AGENTS.md".to_string(), "first".to_string()),
        ("SOUL.md".to_string(), "second".to_string()),
    ];
    let text = load_context_files(&found, 100);
    assert!(text.contains("first"));
    assert!(!text.contains("second"));
    assert_eq!(load_context_files(&[], 100), "");
    assert!(make_date_line("Monday", "2024-01-01", "+00:00").contains("Monday"));
    assert!(PromptConfig::default().context_files.enabled);
}

// ---------- agents ----------

fn handle(id: u128) -> AgentHandle {
    AgentHandle {
        agent_id: id,
        state: Stage::Created,
        isolation: IsolationLevel::Coroutine,
        parent_agent_id: None,
        created_at: Timestamp { secs: 0, nanos: 0 },
        goal: "g".into(),
    }
}

#[test]
fn agents_go_through_their_states() {
    let mut table = AgentTable::new();
    table.launch(handle(1));
    assert_eq!(table.get_status(1).unwrap().state, Stage::Running);
    assert!(table.is_live(1));
    assert!(table.transition(1, Stage::Paused).is_ok());
    assert_eq!(
        table.transition(1, Stage::Stopped).unwrap_err().to_text(),
        "invalid agent state transition: Paused -> Stopped"
    );
    assert!(table.transition(1, Stage::Stopping).is_ok());
    assert!(table.transition(1, Stage::Stopped).is_ok());
    assert!(!table.is_live(1));
    assert_eq!(table.list().len(), 1);
    assert!(table.destroy(1).is_ok());
    assert_eq!(table.destroy(1), Err(LoomError::AgentNotFound(1)));
    assert!(!table.remove(1));
    assert!(table.get_status(1).is_err());
    assert!(Stage::Destroyed.is_terminal());
    assert!(Stage::Starting.is_active());
}

#[test]
fn agents_are_isolated_as_they_need() {
    assert_eq!(select_isolation(false, false, false), IsolationLevel::Coroutine);
    assert_eq!(IsolationLevel::parse("process"), Ok(IsolationLevel::Process));
    assert!(IsolationLevel::parse("elsewhere").is_err());
    let req = AgentLaunchRequest {
        goal: "g".into(),
        config: json(r#"{"untrusted": true}"#),
        ..Default::default()
    };
    let spec = spec_of_request(&req, 3);
    assert_eq!(spec.agent_id, 3);
    assert_eq!(spec.isolation, select_isolation(false, false, true));
    assert_ne!(spec.isolation, IsolationLevel::Coroutine);
}

use loom::agent_loop::types::{AgentRunOutcome, AgentRunResult, AgentRunResultWithHistory};
use loom::capability::{CapabilitySource, CapabilitySpec};
use loom::chat::delivery::{make_results_message, Delivery};
use loom::chat::events::{
    closing_events, done_event, failure_event, outcome_event, progress_event, results_event, resuming_event,
    thinking_event,
};
use loom::chat::guest::{
    guest_output, hear, output_line, stream_line, GuestRun, GuestState, Heard, HostCommand,
    HostInput,
};
use loom::chat::requests::{
    ChatRequest, LaunchRequest, RenameRequest, ResumeFromCheckpointRequest, ResumeRequest,
    SendMessageRequest, SessionQuery,
};
use loom::chat::settings::{
    config_source, parse_config_from_args, parse_number, search_paths, AgentConfig,
    AgentContextFilesConfig, AgentPromptConfig, ConfigSource, DatabaseConfig, DatabaseEnv,
    LoggingConfig, ServerConfig,
};
use loom::chat::turn::{close_turn, open_resumption, open_turn, TurnEnd, TurnStart};
use loom::chat::views::{AgentView, CapabilityView, MessageView, SessionDetail};
use loom::chat::waker::{retry_after, wake_body, wake_url, WakeGate};
use loom::clock::Timestamp;
use loom::config::{ApiRetryConfig, CompressionConfig, GuardrailConfig, LivenessConfig};
use loom::delegation::listing::CostTotals;
use loom::delegation::manager::DelegationManager;
use loom::delegation::types::{BackgroundTask, BackgroundTaskStatus, DeliveryState};
use loom::errors::LoomError;
use loom::isolation::IsolationLevel;
use loom::json::codec::read_json;
use loom::json::Json;
use loom::lifecycle::{AgentHandle, AgentState};
use loom::llm::{ChatMessage, ToolCall};
use loom::message::MessageContent;
use loom::result::{ProgressEvent, SubagentResult};
use loom::session::derive_title;

fn json(text: &str) -> Json {
    read_json(text).unwrap()
}

fn user(text: &str) -> ChatMessage {
    ChatMessage::user(text.to_string())
}

fn task(id: u128, result: Option<SubagentResult>) -> BackgroundTask {
    BackgroundTask {
        delegation_id: 1,
        child_agent_id: id,
        goal: format!("goal {id}"),
        status: BackgroundTaskStatus::Completed,
        parent_agent_id: 9,
        session_id: Some("s".into()),
        origin_session_id: None,
        dispatched_at_ms: 0,
        completed_at_ms: None,
        result,
        live_transcript: vec![],
        delivery_state: DeliveryState::Pending,
        delivery_attempts: 0,
        delivery_claim: None,
        delivery_claimed_at_ms: None,
        owner_instance_id: None,
        tenant_id: None,
        user_id: None,
    }
}

fn two_tasks() -> Vec<BackgroundTask> {
    let done = SubagentResult {
        duration_ms: 5,
        ..SubagentResult::from_success("found it".into(), 3, 2, &[])
    };
    vec![task(1, Some(done)), task(2, Some(SubagentResult::from_error("broke", 1, 0)))]
}

const LINES: &str = "[background sub-agent 00000000-0000-0000-0000-000000000001 (goal 1) \
completed]\nfound it\n\n[background sub-agent 00000000-0000-0000-0000-000000000002 (goal 2) \
failed]\nerror: broke";

const HEADING: &str =
    "Previously dispatched background sub-agent(s) have finished. Here are their results:\n\n";

// ---------- turns ----------

#[test]
fn results_come_into_a_conversation() {
    let turn = open_turn("go on", Some(vec![user("before")]), &two_tasks()).unwrap();
    assert_eq!(turn.delivery.ids, vec![1, 2]);
    let event = turn.event.unwrap();
    assert_eq!(event.name, "background_results");
    let data = event.data.unwrap();
    assert_eq!(data.get("count"), Some(&Json::Int(2)));
    let cost = data.get("cost_aggregation").unwrap();
    assert_eq!(cost.get("total_duration_ms"), Some(&Json::Int(5)));
    assert_eq!(cost.get("total_iterations"), Some(&Json::Int(4)));
    match turn.start {
        TurnStart::Run(Some(h)) => {
            assert_eq!(h.len(), 2);
            let footer = "\n\n---\nAggregated cost: 5ms duration, 4 iterations, 2 tool calls \
                          across 2 sub-agent(s).";
            assert_eq!(h[1].content, Some(format!("{HEADING}{LINES}{footer}")));
        }
        other => panic!("{other:?}"),
    }
}

#[test]
fn an_empty_message_asks_no_model() {
    let turn = open_turn("", None, &two_tasks()).unwrap();
    match turn.start {
        TurnStart::Deliver(h) => assert_eq!(h.len(), 1),
        other => panic!("{other:?}"),
    }
    assert_eq!(open_turn("", Some(vec![user("x")]), &[]).unwrap().start, TurnStart::Rest);
    assert_eq!(open_turn("x", None, &[]).unwrap().start, TurnStart::Run(None));
    assert_eq!(open_turn("x", None, &[task(1, None)]).unwrap().event, None);
}

#[test]
fn costs_that_cannot_be_counted_are_not_told() {
    let endless = |n: u64| SubagentResult {
        duration_ms: n,
        ..SubagentResult::from_success("x".into(), 0, 0, &[])
    };
    let tasks = vec![task(1, Some(endless(u64::MAX))), task(2, Some(endless(1)))];
    assert!(open_turn("x", None, &tasks).is_none());
}

fn finished() -> AgentRunOutcome {
    AgentRunOutcome::Finished(AgentRunResultWithHistory {
        final_response: "fine".into(),
        iterations: 2,
        tool_calls_made: 1,
        tool_names: vec![],
        duration_ms: 3,
        tool_trace: None,
        history: vec![user("x")],
    })
}

#[test]
fn late_results_are_saved() {
    let (delivery, event) = open_resumption(&two_tasks());
    assert!(event.unwrap().data.unwrap().get("cost_aggregation").is_none());
    match close_turn(Ok(finished()), &delivery.results, "s") {
        TurnEnd::Save { history, events } => {
            assert_eq!(history.len(), 2);
            assert_eq!(history[1].content, Some(format!("{HEADING}{LINES}")));
            assert_eq!(events[0].name, "message");
            assert_eq!(events[0].data.as_ref().unwrap().str_field("text"), Some("fine"));
            assert_eq!(events[1..], [done_event()]);
        }
        other => panic!("{other:?}"),
    }
    match close_turn(Ok(finished()), &[], "s") {
        TurnEnd::Save { history, .. } => assert_eq!(history.len(), 1),
        other => panic!("{other:?}"),
    }
    match close_turn(Err(LoomError::Timeout), &delivery.results, "s") {
        TurnEnd::Fail { events } => {
            assert_eq!(events[0].name, "error");
            assert_eq!(events[0].data.as_ref().unwrap().str_field("error"), Some("timeout"));
            assert_eq!(events[1..], [done_event()]);
        }
        other => panic!("{other:?}"),
    }
}

#[test]
fn a_result_is_delivered_once() {
    let mut mgr = DelegationManager::new();
    for t in two_tasks() {
        mgr.registry.register(t);
    }
    let claimed = mgr.claim_completed_tasks("s", 1, 0);
    let delivery = Delivery::of(&claimed);
    assert!(!delivery.is_empty());
    assert!(mgr.settle(&delivery, false).is_empty());
    let claimed = mgr.claim_completed_tasks("s", 1, 0);
    assert_eq!(claimed.len(), 2);
    assert_eq!(mgr.settle(&Delivery::of(&claimed), true), vec![1, 2]);
    assert!(mgr.claim_completed_tasks("s", 1, 0).is_empty());
}

#[test]
fn what_happens_is_told() {
    assert_eq!(done_event().name, "done");
    assert_eq!(done_event().data, None);
    assert_eq!(closing_events(None), vec![done_event()]);
    let thinking = thinking_event("g", 1, "s").data.unwrap();
    assert_eq!(thinking.str_field("agent_id"), Some("00000000-0000-0000-0000-000000000001"));
    let resuming = resuming_event(&None, "t", "s").data.unwrap();
    assert_eq!(resuming.get("checkpoint_id"), Some(&Json::Null));
    let asked = AgentRunOutcome::Interrupt {
        value: json("{\"q\": 1}"),
        checkpoint_id: "c".into(),
        thread_id: "t".into(),
        history: vec![],
    };
    let told = outcome_event(&asked, "s");
    assert_eq!(told.name, "interrupt");
    assert_eq!(told.data.unwrap().str_field("checkpoint_id"), Some("c"));
    assert_eq!(failure_event("e", "s").name, "error");
    let start = ProgressEvent::ToolStart { tool: "read".into(), arguments: None };
    assert!(progress_event(&start)
        .data
        .unwrap()
        .same(&json(r#"{"type": "tool_start", "tool": "read", "arguments": null}"#)));
    assert!(ProgressEvent::Iteration { iteration: 2 }
        .to_json()
        .same(&json(r#"{"type": "iteration", "iteration": 2}"#)));
    assert_eq!(results_event(&[], None).data.unwrap().get("count"), Some(&Json::Int(0)));
    let cost = CostTotals { duration_ms: 1, iterations: 2, tool_calls: 3 };
    let text = make_results_message(&[], Some(cost)).content.unwrap();
    assert!(text.ends_with("1ms duration, 2 iterations, 3 tool calls across 0 sub-agent(s)."));
}

// ---------- requests and views ----------

#[test]
fn requests_name_their_session_and_scope() {
    let req = ChatRequest {
        message: "hi".into(),
        session_id: Some("s".into()),
        isolation: None,
        tenant_id: Some("t".into()),
        user_id: None,
    };
    assert_eq!(req.session(), "s");
    assert_eq!(req.scope().tenant_id.as_deref(), Some("t"));
    let unnamed = ChatRequest { session_id: Some(String::new()), ..req };
    assert_eq!(unnamed.session().len(), 36);
    assert_ne!(unnamed.session(), unnamed.session());
    let query = SessionQuery { tenant_id: None, user_id: Some("u".into()) };
    assert_eq!(query.scope().user_id.as_deref(), Some("u"));
    let resume = ResumeRequest {
        checkpoint_id: "c".into(),
        thread_id: "t".into(),
        resume_value: json("1"),
        tenant_id: None,
        user_id: Some("u".into()),
    };
    assert_eq!(resume.scope().user_id.as_deref(), Some("u"));
    let cmd = resume.command();
    assert_eq!((cmd.thread_id.as_str(), cmd.checkpoint_id.as_str()), ("t", "c"));
    let take_up = ResumeFromCheckpointRequest {
        thread_id: "t".into(),
        checkpoint_id: None,
        tenant_id: Some("x".into()),
        user_id: None,
    };
    assert_eq!(take_up.scope().tenant_id.as_deref(), Some("x"));
}

#[test]
fn agents_are_launched_and_written_to() {
    let launch = |level: Option<&str>| {
        LaunchRequest {
            goal: "g".into(),
            context: "c".into(),
            isolation: level.map(|l| l.to_string()),
        }
        .launch()
    };
    assert_eq!(launch(Some("process")).isolation, IsolationLevel::Process);
    assert_eq!(launch(Some("nowhere")).isolation, IsolationLevel::Coroutine);
    assert_eq!(launch(None).goal, "g");
    let msg = SendMessageRequest { content: "hello".into() }.to_agent(5);
    assert_eq!((msg.from, msg.to), (0, 5));
    assert_eq!(msg.content, MessageContent::Text("hello".into()));
}

#[test]
fn a_conversation_is_renamed() {
    let mut msgs = vec![user("hello")];
    RenameRequest { title: " new ".into() }.rename(&mut msgs);
    assert_eq!(msgs.len(), 2);
    assert_eq!(derive_title(&msgs), "new");
    RenameRequest { title: "newer".into() }.rename(&mut msgs);
    assert_eq!(derive_title(&msgs), "newer");
}

#[test]
fn things_are_shown() {
    let view = AgentView::of(AgentHandle {
        agent_id: 1,
        state: AgentState::Running,
        isolation: IsolationLevel::Process,
        parent_agent_id: None,
        created_at: Timestamp { secs: 1_700_000_000, nanos: 0 },
        goal: "g".into(),
    });
    assert_eq!(view.state, "Running");
    assert_eq!(view.isolation, "process");
    assert_eq!(view.created_at, "2023-11-14T22:13:20+00:00");
    let spec = CapabilitySpec {
        name: "n".into(),
        source: CapabilitySource::Mcp { server_url: "u".into(), tool_name: "t".into() },
        ..Default::default()
    };
    let view = CapabilityView::of(spec);
    assert_eq!(view.kind, "Tool");
    assert_eq!(view.source, "Mcp { server_url: \"u\", tool_name: \"t\" }");
    let spec = CapabilitySpec {
        source: CapabilitySource::A2a { agent_url: "u".into(), agent_card: json("{\"a\": 1}") },
        ..Default::default()
    };
    assert_eq!(
        CapabilityView::of(spec).source,
        "A2a { agent_url: \"u\", agent_card: Object {\"a\": Number(1)} }"
    );
    let call = ToolCall { id: "i".into(), name: "n".into(), arguments: Json::Null };
    let shown = MessageView::of(&ChatMessage::assistant_with_tool_calls(vec![call]));
    assert_eq!((shown.role.as_str(), shown.content.as_str()), ("assistant", ""));
    assert_eq!(shown.tool_calls[0].arguments, None);
    let detail = SessionDetail::of("s".into(), &[user("hello")], 7);
    assert_eq!(detail.title, "hello");
    assert_eq!(detail.updated_at, 7);
    assert_eq!(detail.messages.len(), 1);
}

// ---------- settings ----------

fn no_env() -> DatabaseEnv {
    DatabaseEnv {
        host: None,
        port: None,
        user: None,
        password: None,
        dbname: None,
        max_connections: None,
    }
}

#[test]
fn the_environment_goes_before_the_configuration() {
    let plain = DatabaseConfig::default().with_env(no_env());
    assert_eq!((plain.host.as_str(), plain.port), ("127.0.0.1", 5432));
    let env = DatabaseEnv {
        host: Some("db".into()),
        port: Some("6000".into()),
        max_connections: Some("many".into()),
        ..no_env()
    };
    let set = DatabaseConfig::default().with_env(env);
    assert_eq!((set.host.as_str(), set.port, set.max_connections), ("db", 6000, 5));
    let env = DatabaseEnv { port: Some("65536".into()), ..no_env() };
    assert_eq!(DatabaseConfig::default().with_env(env).port, 5432);
}

#[test]
fn numbers_are_read() {
    for text in ["0", "7", "+7", "007", "65535", "65536", "", "+", "-1", "1 ", "x", "++1"] {
        assert_eq!(parse_number(text, 65535), text.parse::<u16>().ok().map(u64::from), "{text}");
    }
    let most = u64::MAX.to_string();
    assert_eq!(parse_number(&most, u64::MAX), Some(u64::MAX));
    assert_eq!(parse_number("18446744073709551616", u64::MAX), None);
}

fn args(list: &[&str]) -> Vec<String> {
    list.iter().map(|s| s.to_string()).collect()
}

#[test]
fn the_configuration_is_looked_for() {
    assert_eq!(parse_config_from_args(&args(&["x", "--config", "a"])).as_deref(), Some("a"));
    assert_eq!(parse_config_from_args(&args(&["x", "-c", "a"])).as_deref(), Some("a"));
    assert_eq!(parse_config_from_args(&args(&["x", "--config=b"])).as_deref(), Some("b"));
    assert_eq!(parse_config_from_args(&args(&["x", "--config"])), None);
    let file = |p: &str| ConfigSource::File(p.to_string());
    assert_eq!(config_source(&args(&["--config=b"]), Some("e".into())), file("b"));
    assert_eq!(config_source(&args(&["x"]), Some("e".into())), file("e"));
    assert_eq!(config_source(&args(&["x"]), Some(String::new())), ConfigSource::Search);
    assert_eq!(config_source(&args(&["x"]), None), ConfigSource::Search);
    assert_eq!(search_paths(), args(&["config.toml", "./config.toml", "../config.toml"]));
}

#[test]
fn the_server_is_set_up() {
    let mut server =
        ServerConfig { host: "0.0.0.0".into(), port: 8080, self_base_url: None };
    assert_eq!(server.base_url(), "http://0.0.0.0:8080");
    server.self_base_url = Some("https://me".into());
    assert_eq!(server.base_url(), "https://me");
    assert_eq!(LoggingConfig::default().filter, "loom=debug,tower_http=info");
    assert_eq!(AgentContextFilesConfig::default().names.len(), 4);
    let agent = AgentConfig {
        max_iterations: 7,
        allow_delegation: false,
        max_delegation_depth: 1,
        max_concurrent_children: 2,
        system_prompt: "p".into(),
        prompt: AgentPromptConfig::default(),
        compression: CompressionConfig::default(),
        checkpoint_interval: 3,
        max_concurrent_tools: 4,
        api_retry: ApiRetryConfig::default(),
        guardrails: GuardrailConfig::default(),
        liveness: LivenessConfig::default(),
        delegate_summary_max_chars: 5,
    };
    let config = agent.for_model("m".into());
    assert_eq!((config.model.as_str(), config.max_iterations), ("m", 7));
    assert_eq!(config.prompt.identity, "");
}

// ---------- waking ----------

#[test]
fn a_conversation_is_woken_once_in_a_while() {
    let mut gate = WakeGate::new();
    assert!(gate.wake("s", 5_000));
    assert!(!gate.wake("s", 5_999));
    assert!(gate.wake("other", 5_999));
    assert!(gate.wake("s", 6_000));
    assert!(!gate.wake("s", 5_000));
}

#[test]
fn a_conversation_is_woken_with_nothing() {
    assert_eq!(wake_url("http://me//"), "http://me/chat");
    assert_eq!(wake_url("http://me"), "http://me/chat");
    assert!(wake_body("s").same(&json(r#"{"message": "", "session_id": "s"}"#)));
    assert_eq!(retry_after(0), Some(100));
    assert_eq!(retry_after(1), Some(200));
    assert_eq!(retry_after(2), Some(400));
    assert_eq!(retry_after(3), None);
}

// ---------- guests ----------

#[test]
fn the_host_is_heard() {
    assert_eq!(hear("  \n"), Heard::Nothing);
    assert_eq!(hear(r#"{"type": "stop"}"#), Heard::Command(HostCommand::Stop));
    assert_eq!(
        hear(r#"{"type": "message", "payload": {"a": 1}}"#),
        Heard::Command(HostCommand::Message(json("{\"a\": 1}")))
    );
    assert_eq!(hear(r#"{"type": "other"}"#), Heard::Unknown);
    assert_eq!(hear("not json"), Heard::Unknown);
}

#[test]
fn an_agent_is_stopped_once() {
    let mut state = GuestState::new();
    let stop = || HostInput::Line(Heard::Command(HostCommand::Stop));
    assert!(!state.on_input(&HostInput::Line(Heard::Nothing)).stop);
    let step = state.on_input(&stop());
    assert!(step.stop && !step.leave);
    assert!(!state.on_input(&stop()).stop);
    let step = state.on_input(&HostInput::Ended);
    assert!(!step.stop && step.leave);
}

#[test]
fn a_guest_hands_back_what_it_has() {
    assert_eq!(stream_line(json("1")), "{\"payload\":1,\"type\":\"stream\"}\n");
    assert_eq!(output_line(json("1")), "{\"payload\":1,\"type\":\"output\"}\n");
    let stopped = guest_output(GuestRun::Stopped);
    assert_eq!(stopped.error_message.as_deref(), Some("stopped by host"));
    let broken = guest_output(GuestRun::Broken("oops".into()));
    assert_eq!(broken.error_message.as_deref(), Some("task panic: oops"));
    let failed = guest_output(GuestRun::Ended(Err(LoomError::Timeout)));
    assert!(!failed.success);
    let done = guest_output(GuestRun::Ended(Ok(AgentRunResult {
        final_response: "fine".into(),
        iterations: 1,
        tool_calls_made: 0,
        tool_names: vec![],
        duration_ms: 2,
        tool_trace: None,
    })));
    assert!(done.success);
    assert_eq!(done.summary, "fine");
}

use loom::agent::AgentOutput;
use loom::clock::Timestamp;
use loom::delegation::background::Batch;
use loom::delegation::control::{
    plan_spawn, plan_steer, plan_stop, steer_reply, stop_reply, ControlPlan, SpawnPlan,
};
use loom::delegation::heartbeat::{Heartbeat, StaleMonitor};
use loom::delegation::job::{
    after_attempt, awaited_result, background_result, cancelled_result, report, report_all,
    Attempt, SubagentJob,
};
use loom::delegation::manager::DelegationManager;
use loom::delegation::registry::BackgroundTaskRegistry;
use loom::delegation::schema::{
    append_output_contract, build_retry_message, coerce_output_schema, extract_json_candidate,
    validate_output,
};
use loom::delegation::spawn_args::{SpawnArgs, SpawnTask};
use loom::delegation::types::{
    ActivitySnapshot, BackgroundTask, BackgroundTaskStatus, DeliveryState, CLAIM_TTL_MS,
    MAX_DELIVERY_ATTEMPTS,
};
use loom::delegation::wakes::PendingWakes;
use loom::errors::LoomError;
use loom::isolation::{ActivitySummary, IsolationLevel};
use loom::json::codec::read_json;
use loom::json::Json;
use loom::lifecycle::{AgentHandle, AgentState};
use loom::result::SubagentResult;

fn json(text: &str) -> Json {
    read_json(text).unwrap()
}

fn fields(text: &str) -> Vec<(String, Json)> {
    match json(text) {
        Json::Object(o) => o,
        other => panic!("{other:?}"),
    }
}

// ---------- the form of answers ----------

#[test]
fn test_coerce_none() {
    assert!(coerce_output_schema(None).unwrap().is_none());
}

#[test]
fn test_coerce_valid_object() {
    let raw = json(r#"{"type": "object", "properties": {"name": {"type": "string"}}}"#);
    let result = coerce_output_schema(Some(&raw)).unwrap();
    assert!(result.is_some());
}

#[test]
fn test_coerce_string_encoded() {
    let raw = Json::Str(r#"{"type":"object"}"#.to_string());
    let result = coerce_output_schema(Some(&raw)).unwrap();
    assert!(result.is_some());
}

#[test]
fn test_coerce_invalid_type() {
    let raw = json("123");
    assert!(coerce_output_schema(Some(&raw)).is_err());
}

#[test]
fn schema_test_extract_json_direct() {
    let text = r#"{"name": "test"}"#;
    assert_eq!(extract_json_candidate(text), r#"{"name": "test"}"#);
}

#[test]
fn test_extract_json_code_fence() {
    let text = "Here is the result:\n```json\n{\"status\": \"ok\"}\n```";
    assert_eq!(extract_json_candidate(text), r#"{"status": "ok"}"#);
}

#[test]
fn prose_and_fences_are_left_out() {
    let array = r#"[{"a":1},{"b":2}]"#;
    assert_eq!(extract_json_candidate(array), array);
    assert_eq!(extract_json_candidate(&format!("Here: {array} - done.")), array);
    assert_eq!(extract_json_candidate(r#"See [1]: {"a":1}"#), r#"{"a":1}"#);
    assert_eq!(extract_json_candidate(r#"{"a":[1]} as asked"#), r#"{"a":[1]}"#);
    assert_eq!(extract_json_candidate(r#"{"a":[1]"#), r#"{"a":[1]"#);
    assert_eq!(extract_json_candidate("```json\n[1]\n```\nDone."), "[1]");
    assert_eq!(extract_json_candidate("```\nJSON\n{}\n```"), "{}");
    assert_eq!(extract_json_candidate(r#"[1] {"a":1} [2]"#), r#"{"a":1}"#);
    assert_eq!(extract_json_candidate(r#"[{"a":1}] as in [1]"#), r#"[{"a":1}]"#);
    assert_eq!(extract_json_candidate(r#"[{"a":"]"}]"#), r#"[{"a":"]"}]"#);
    let unclosed = "```json\n{\"a\": \"x```y\"}";
    assert_eq!(extract_json_candidate(unclosed), "{\"a\": \"x```y\"}");
    assert_eq!(extract_json_candidate(" no brackets "), "no brackets");
}

#[test]
fn required_fields_are_required_of_any_object() {
    let schema = fields(r#"{"type": "object", "required": ["a"]}"#);
    let (valid, errors) = validate_output("{}", &schema);
    assert!(!valid);
    assert_eq!(errors, vec!["$.a: is required".to_string()]);
    assert!(validate_output(r#"{"a": 1}"#, &schema).0);
}

#[test]
fn test_validate_output_valid() {
    let schema_obj = fields(
        r#"{"type": "object", "properties": {"name": {"type": "string"}}, "required": ["name"]}"#,
    );
    let text = r#"{"name": "test"}"#;
    let (valid, errors) = validate_output(text, &schema_obj);
    assert!(valid, "errors: {errors:?}");
}

#[test]
fn test_validate_output_missing_required() {
    let schema_obj = fields(
        r#"{"type": "object", "properties": {"name": {"type": "string"}}, "required": ["name"]}"#,
    );
    let text = r#"{"age": 30}"#;
    let (valid, errors) = validate_output(text, &schema_obj);
    assert!(!valid);
    assert!(!errors.is_empty());
}

#[test]
fn test_validate_output_wrong_type() {
    let schema_obj = fields(r#"{"type": "object", "properties": {"age": {"type": "integer"}}}"#);
    let text = r#"{"age": "thirty"}"#;
    let (valid, _errors) = validate_output(text, &schema_obj);
    assert!(!valid);
}

#[test]
fn test_build_retry_message() {
    let errors = vec!["$.name: is required".to_string()];
    let msg = build_retry_message(&errors);
    assert!(msg.contains("$.name: is required"));
    assert!(msg.contains("OUTPUT CONTRACT"));
}

#[test]
fn fields_within_fields_have_a_form() {
    let schema = fields(
        r#"{"type": "object", "properties": {"a": {"type": "array", "items": {"type": "integer"}}}}"#,
    );
    assert!(validate_output(r#"{"a": [1, 2]}"#, &schema).0);
    assert!(!validate_output(r#"{"a": [1, "x"]}"#, &schema).0);
    assert!(!validate_output("no object at all", &schema).0);
    assert!(append_output_contract("context", &schema).starts_with("context"));
}

// ---------- what is asked for ----------

#[test]
fn a_single_goal_is_one_task() {
    let args = SpawnArgs::from_value(&json(r#"{"goal": "find it", "context": "there"}"#), true);
    let args = args.unwrap();
    assert_eq!(args.tasks.len(), 1);
    assert_eq!(args.tasks[0].goal, "find it");
    assert_eq!(args.tasks[0].context, "there");
    assert!(!args.background);
    assert_eq!(args.isolation, IsolationLevel::Coroutine);
}

#[test]
fn a_spawn_needs_a_goal() {
    assert!(SpawnArgs::from_value(&json("{}"), true).is_err());
}

#[test]
fn children_do_not_run_in_the_background() {
    let wish = json(r#"{"goal": "g", "background": true}"#);
    assert!(SpawnArgs::from_value(&wish, true).unwrap().background);
    assert!(!SpawnArgs::from_value(&wish, false).unwrap().background);
}

#[test]
fn a_spawn_is_planned() {
    let goal = json(r#"{"goal": "g"}"#);
    match plan_spawn(&goal, true, 0, 3, true) {
        SpawnPlan::Sync { args, child_depth, fell_back } => {
            assert_eq!(args.tasks.len(), 1);
            assert_eq!(child_depth, 1);
            assert!(!fell_back);
        }
        other => panic!("{other:?}"),
    }
    assert!(matches!(plan_spawn(&goal, false, 3, 3, true), SpawnPlan::Reply(_)));
    assert_eq!(plan_spawn(&json(r#"{"action": "list"}"#), true, 0, 3, true), SpawnPlan::List);
    assert_eq!(plan_spawn(&json(r#"{"action": "stop"}"#), true, 0, 3, true), SpawnPlan::Stop);
    let later = json(r#"{"goal": "g", "background": true}"#);
    assert!(matches!(plan_spawn(&later, true, 0, 3, true), SpawnPlan::Background { .. }));
}

fn handle(id: u128, parent: Option<u128>) -> AgentHandle {
    AgentHandle {
        agent_id: id,
        state: AgentState::Running,
        isolation: IsolationLevel::Coroutine,
        parent_agent_id: parent,
        created_at: Timestamp { secs: 0, nanos: 0 },
        goal: "mock".into(),
    }
}

#[test]
fn only_its_own_children_are_controlled() {
    let agents = vec![handle(7, Some(1)), handle(8, Some(2))];
    let id = |n: u128| format!("00000000-0000-0000-0000-{n:012x}");
    let mine = json(&format!("{{\"subagent_id\": \"{}\", \"message\": \"m\"}}", id(7)));
    let other = json(&format!("{{\"subagent_id\": \"{}\", \"message\": \"m\"}}", id(8)));
    match plan_stop(&mine, 1, &agents).unwrap() {
        ControlPlan::Proceed { id: found, subagent_id } => {
            assert_eq!(found, 7);
            assert_eq!(subagent_id, id(7));
        }
        other => panic!("{other:?}"),
    }
    assert!(!matches!(plan_stop(&other, 1, &agents), Ok(ControlPlan::Proceed { .. })));
    assert!(matches!(plan_steer(&mine, 1, &agents), Ok((ControlPlan::Proceed { .. }, _))));
    assert!(stop_reply(&id(7)).text().contains(&id(7)));
    assert!(steer_reply(&id(7), Some(LoomError::Timeout)).text().contains("timeout"));
}

// ---------- jobs ----------

fn job(schema: Option<Vec<(String, Json)>>) -> SubagentJob {
    SubagentJob {
        goal: "g".into(),
        context: "c".into(),
        toolsets: vec![],
        parent_toolsets: vec![],
        isolation: IsolationLevel::Coroutine,
        parent_agent_id: 1,
        child_depth: 1,
        output_schema: schema,
        scope: None,
        session_id: None,
    }
}

#[test]
fn an_answer_of_the_wrong_form_is_asked_for_again() {
    let schema = fields(r#"{"type": "object", "properties": {}, "required": ["a"]}"#);
    let wrong = || SubagentResult::from_success("{}".into(), 1, 0, &[]);
    let again = match after_attempt(job(Some(schema)), 0, wrong()) {
        Attempt::Again(j) => j,
        other => panic!("{other:?}"),
    };
    assert!(again.context.len() > 1);
    match after_attempt(again, 1, wrong()) {
        Attempt::Done(r) => assert!(!r.success),
        other => panic!("{other:?}"),
    }
    match after_attempt(job(None), 0, wrong()) {
        Attempt::Done(r) => assert!(r.success),
        other => panic!("{other:?}"),
    }
}

#[test]
fn outcomes_become_results() {
    let done = || AgentOutput::success("fine".into(), 2, 1, vec!["t".into()]);
    let r = awaited_result(Ok(done()));
    assert!(r.success);
    assert_eq!(r.summary, "fine");
    assert_eq!(r.usage.iterations, 2);
    let r = awaited_result(Err(LoomError::Timeout));
    assert!(!r.success);
    assert_eq!(r.error_message.as_deref(), Some("timeout"));
    let r = awaited_result(Ok(AgentOutput::failure("no".into(), 4, 2)));
    assert!(!r.success);
    assert_eq!(r.error_message.as_deref(), Some("no"));
    assert_eq!(r.usage.iterations, 4);
    let mut silent = AgentOutput::failure("no".into(), 0, 0);
    silent.error_message = None;
    let r = awaited_result(Ok(silent));
    assert_eq!(r.error_message.as_deref(), Some("sub-agent failed"));
    let r = background_result(1, Ok(AgentOutput::failure("no".into(), 0, 0)));
    assert!(!r.success);
    assert_eq!(r.error_message.as_deref(), Some("no"));
    assert!(!cancelled_result(1).success);
    let told = report(awaited_result(Ok(done())), 0, "goal");
    assert_eq!(told.str_field("goal"), Some("goal"));
    let all = report_all(vec![told], false);
    assert!(all.get("results").is_some());
}

#[test]
fn a_request_is_made_for_a_job() {
    let req = job(None).request();
    assert_eq!(req.goal, "g");
    assert_eq!(req.parent_agent_id, Some(1));
    assert_eq!(req.delegate_depth, 1);
}

// ---------- tasks in the background ----------

fn task(id: u128, status: BackgroundTaskStatus, result: Option<SubagentResult>) -> BackgroundTask {
    BackgroundTask {
        delegation_id: 1,
        child_agent_id: id,
        goal: "goal".into(),
        status,
        parent_agent_id: 9,
        session_id: Some("sess-1".into()),
        origin_session_id: None,
        dispatched_at_ms: 0,
        completed_at_ms: None,
        result,
        live_transcript: vec![],
        delivery_state: DeliveryState::Pending,
        delivery_attempts: 0,
        delivery_claim: None,
        delivery_claimed_at_ms: None,
        owner_instance_id: Some("other-instance".into()),
        tenant_id: None,
        user_id: None,
    }
}

fn ok_result() -> SubagentResult {
    SubagentResult::from_success("ok".into(), 3, 2, &[])
}

#[test]
fn recover_persisted_without_store_returns_zero() {
    let mut mgr = DelegationManager::new();
    assert_eq!(mgr.recover_persisted(&[], 0), 0);
}

#[test]
fn recover_persisted_restores_completed_and_marks_running_unknown() {
    let mut mgr = DelegationManager::new();
    let session = "sess-1".to_string();
    let completed = BackgroundTask {
        goal: "done task".into(),
        completed_at_ms: Some(1000),
        ..task(1, BackgroundTaskStatus::Completed, Some(ok_result()))
    };
    let running = BackgroundTask {
        goal: "in-flight task".into(),
        ..task(2, BackgroundTaskStatus::Running, None)
    };

    let recovered = mgr.recover_persisted(&[completed, running], 2000);
    assert_eq!(recovered, 2);

    let (results, gone) = mgr.drain_background_results_by_session(&session);
    assert_eq!(results.len(), 2);
    assert_eq!(gone.len(), 2);
    let unknown = results.iter().find(|(_, goal, _)| goal == "in-flight task").unwrap();
    assert!(!unknown.2.success);
    let err_msg = unknown.2.error_message.as_deref().unwrap_or_default();
    assert!(err_msg.contains("process restarted"));
    assert!(mgr.drain_background_results_by_session(&session).0.is_empty());
}

#[test]
fn a_task_goes_through_its_states() {
    let mut tasks = BackgroundTaskRegistry::new();
    tasks.register(task(1, BackgroundTaskStatus::Running, None));
    assert_eq!(tasks.list_running().len(), 1);
    assert!(tasks.begin_complete(1).is_some());
    assert!(tasks.begin_complete(1).is_none());
    let done = tasks.finish_complete(1, ok_result(), 5).unwrap();
    assert_eq!(done.status, BackgroundTaskStatus::Completed);
    assert_eq!(done.completed_at_ms, Some(5));
    assert!(tasks.list_running().is_empty());
    assert!(tasks.has_for_parent(9));
    assert_eq!(tasks.drain_by_parent(9).len(), 1);
    assert!(!tasks.has_for_parent(9));
    assert!(BackgroundTaskStatus::Completed.is_terminal());
    assert!(!BackgroundTaskStatus::Completed.can_transition_to(&BackgroundTaskStatus::Running));
}

#[test]
fn a_claim_is_exclusive_until_it_runs_out() {
    let mut mgr = DelegationManager::new();
    mgr.registry.register(task(1, BackgroundTaskStatus::Completed, Some(ok_result())));
    assert!(mgr.can_claim());
    let claimed = mgr.claim_completed_tasks("sess-1", 7, 1000);
    assert_eq!(claimed.len(), 1);
    assert!(claimed[0].delivery_claim.as_ref().unwrap().contains(":7:"));
    assert!(mgr.claim_completed_tasks("sess-1", 7, 1000 + CLAIM_TTL_MS).is_empty());
    assert_eq!(mgr.claim_completed_tasks("sess-1", 7, 1001 + CLAIM_TTL_MS).len(), 1);
    assert!(mgr.claim_completed_tasks("another", 7, 0).is_empty());
}

#[test]
fn two_claims_hand_out_different_results() {
    let mut tasks = BackgroundTaskRegistry::new();
    tasks.register(task(1, BackgroundTaskStatus::Completed, Some(ok_result())));
    tasks.register(task(2, BackgroundTaskStatus::Running, None));
    let first = tasks.claim_completed("sess-1", "one", 7, 1000);
    assert_eq!(first.len(), 1);
    assert_eq!(first[0].child_agent_id, 1);
    assert_eq!(first[0].delivery_attempts, 1);
    assert!(first[0].delivery_claim.as_ref().unwrap().starts_with("one:"));
    tasks.register(task(3, BackgroundTaskStatus::Failed, Some(ok_result())));
    let second = tasks.claim_completed("sess-1", "two", 7, 2000);
    assert_eq!(second.len(), 1);
    assert_eq!(second[0].child_agent_id, 3);
    assert!(second[0].delivery_claim.as_ref().unwrap().starts_with("two:"));
}

#[test]
fn a_delivery_is_confirmed_by_its_claim_only() {
    let mut mgr = DelegationManager::new();
    mgr.registry.register(task(1, BackgroundTaskStatus::Completed, Some(ok_result())));
    let claim = mgr.claim_completed_tasks("sess-1", 7, 0)[0].delivery_claim.clone();
    assert!(mgr.complete_background_delivery(&[1], &[Some("foreign".into())]).is_empty());
    assert_eq!(mgr.list_background_tasks(9).len(), 1);
    assert_eq!(mgr.complete_background_delivery(&[1], &[claim]), vec![1]);
    assert!(mgr.list_background_tasks(9).is_empty());
}

#[test]
fn a_delivery_is_given_up_after_so_many_attempts() {
    let mut mgr = DelegationManager::new();
    mgr.registry.register(task(1, BackgroundTaskStatus::Completed, Some(ok_result())));
    for attempt in 1..=MAX_DELIVERY_ATTEMPTS + 1 {
        let claim = mgr.claim_completed_tasks("sess-1", 7, 0)[0].delivery_claim.clone();
        let dropped = mgr.release_background_delivery(&[1], &[claim]);
        assert_eq!(dropped.is_empty(), attempt <= MAX_DELIVERY_ATTEMPTS);
    }
    assert!(mgr.claim_completed_tasks("sess-1", 7, 0).is_empty());
    assert!(!mgr.has_background_results(9));
}

#[test]
fn a_batch_is_told() {
    let mut tasks = BackgroundTaskRegistry::new();
    let mut batch = Batch::new(5, 100);
    let one = batch.launched(&mut tasks, &job(None), Ok(42), "me");
    assert_eq!(one.unwrap().child_agent_id, 42);
    assert!(batch.launched(&mut tasks, &job(None), Err(LoomError::Timeout), "me").is_none());
    let reply = batch.reply();
    assert!(reply.text().contains("00000000-0000-0000-0000-00000000002a"));
    assert!(reply.text().contains("timeout"));
}

#[test]
fn sub_agents_are_listed() {
    let mut tasks = BackgroundTaskRegistry::new();
    tasks.register(task(1, BackgroundTaskStatus::Completed, Some(ok_result())));
    tasks.register(task(2, BackgroundTaskStatus::Running, None));
    let (told, taken) = tasks.list_sub_agents(&[handle(2, Some(9))], 9).unwrap();
    assert_eq!(taken.len(), 1);
    let count = |name: &str| match told.get(name) {
        Some(Json::Array(a)) => a.len(),
        other => panic!("{other:?}"),
    };
    assert_eq!(count("children"), 1);
    assert_eq!(count("running"), 1);
    assert_eq!(count("completed"), 1);
    assert_eq!(count("batches"), 1);
    let cost = told.get("cost_aggregation").unwrap();
    assert_eq!(cost.get("total_iterations"), Some(&Json::Int(3)));
}

#[test]
fn an_agent_that_stands_still_is_noticed() {
    let still = ActivitySummary {
        iterations: 1,
        api_call_count: 1,
        current_tool: None,
        last_activity: None,
    };
    let mut beat = Heartbeat::new();
    assert!(beat.observe(&still).is_none());
    let mut noticed = false;
    for _ in 0..1000 {
        if beat.observe(&still).is_some() {
            noticed = true;
            break;
        }
    }
    assert!(noticed);
    let mut monitor = StaleMonitor::new();
    let mut message = None;
    for _ in 0..1000 {
        message = monitor.observe(3, &still);
        if message.is_some() {
            break;
        }
    }
    assert!(message.is_some());
}

#[test]
fn samples_are_kept() {
    let summary = ActivitySummary {
        iterations: 4,
        api_call_count: 5,
        current_tool: Some("read".into()),
        last_activity: Some(Timestamp { secs: 0, nanos: 0 }),
    };
    let sample = ActivitySnapshot::from_summary(&summary, 10);
    assert_eq!(sample.timestamp_ms, 10);
    assert_eq!(sample.current_tool.as_deref(), Some("read"));
    assert_eq!(sample.last_activity_ts.as_deref(), Some("1970-01-01T00:00:00+00:00"));
    let mut tasks = BackgroundTaskRegistry::new();
    tasks.register(task(1, BackgroundTaskStatus::Running, None));
    tasks.push_activity_snapshot(1, &summary, 10);
    assert_eq!(tasks.list_running()[0].live_transcript.len(), 1);
    let stale = tasks.mark_stale(1, "stuck", 11).unwrap();
    assert_eq!(stale.status, BackgroundTaskStatus::Stale);
    assert_eq!(stale.result.unwrap().error_message.as_deref(), Some("stuck"));
}

#[test]
fn a_session_is_woken_once_for_many_tasks() {
    let mut wakes = PendingWakes::new();
    let note = task(1, BackgroundTaskStatus::Completed, Some(ok_result())).notification().unwrap();
    wakes.note(&note);
    wakes.note(&note);
    assert_eq!(wakes.take(), vec!["sess-1".to_string()]);
    assert!(wakes.take().is_empty());
}

#[test]
fn a_job_carries_the_form_of_its_task() {
    let task = SpawnTask {
        goal: "count".to_string(),
        context: "files".to_string(),
        output_schema: Some(fields(r#"{"type": "object"}"#)),
    };
    let job = SubagentJob::from_task(
        &task,
        &["web".to_string()],
        &["web".to_string(), "file".to_string()],
        IsolationLevel::Coroutine,
        7,
        2,
        &None,
        &Some("s".to_string()),
    );
    assert_eq!(
        job.context,
        append_output_contract("files", &fields(r#"{"type": "object"}"#))
    );
    let request = job.request();
    assert_eq!(request.goal, "count");
    assert_eq!(request.parent_agent_id, Some(7));
    assert_eq!(request.delegate_depth, 2);
    assert_eq!(request.session_id.as_deref(), Some("s"));
    assert_eq!(request.parent_toolsets.len(), 2);
}

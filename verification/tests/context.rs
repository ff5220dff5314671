use loom::clock::Timestamp;
use loom::context::boundary::{
    compute_compress_window, protect_head_size, snap_boundary_forward, tail_start_by_count,
    CompressWindow, TailMode,
};
use loom::context::compressor::{CompressStep, ContextCompressor, SummaryRoute};
use loom::context::config::CompressionConfig;
use loom::context::state::{CompressionFailure, CompressionState};
use loom::context::summary::{
    accept_summary, assemble_summary_message, build_summary_prompt, fallback_summary,
    latest_user_message, summary_request, uncompleted_tool_calls, SummaryResult,
    HISTORICAL_TASK_HEADING, SUMMARY_END_MARKER,
};
use loom::context::token::{estimate_tokens, TokenTracker};
use loom::context::tool_pruning::{
    dedupe_tool_results, extract_pruned_skill_names, pressure_demote_tail, prune_tool_outputs,
    reinject_pruned_skill_markers, skill_pruned_marker, DUPLICATE_TOOL_PLACEHOLDER,
    SKILL_PRUNED_MARKER_PREFIX,
};
use loom::json::codec::read_json;
use loom::llm::{ChatMessage, Role, ToolCall};

fn system(text: &str) -> ChatMessage {
    ChatMessage::system(text.to_string())
}

fn user(text: &str) -> ChatMessage {
    ChatMessage::user(text.to_string())
}

fn assistant(text: &str) -> ChatMessage {
    ChatMessage::assistant(text.to_string())
}

fn tool(id: &str, text: &str) -> ChatMessage {
    ChatMessage::tool(id.to_string(), text.to_string())
}

fn boundary_msgs(n: usize) -> Vec<ChatMessage> {
    let mut msgs = vec![system("system prompt"), user("Goal: test")];
    for i in 0..n {
        msgs.push(assistant(&format!("response {i}")));
        msgs.push(tool(&format!("tc_{i}"), &format!("result {i}")));
    }
    msgs
}

#[test]
fn test_protect_head_size() {
    let msgs = boundary_msgs(5);
    assert_eq!(protect_head_size(&msgs, 3), 4);
}

#[test]
fn test_compute_compress_window() {
    let mut msgs = vec![system("system prompt"), user("Goal: test")];
    for i in 0..30 {
        msgs.push(assistant(&format!("response {i}")));
        msgs.push(tool(&format!("tc_{i}"), &format!("result {i} {}", "x".repeat(500))));
        if i % 5 == 4 {
            msgs.push(user(&format!("follow up question {i}")));
        }
    }
    let window = compute_compress_window(&msgs, 3, TailMode::Lean, 500, 20, 1);
    assert!(window.is_some());
    let w = window.unwrap();
    assert!(w.compress_start < w.compress_end);
    assert!(w.compress_start >= 1);
}

#[test]
fn test_compute_compress_window_legacy() {
    let msgs = boundary_msgs(10);
    let window = compute_compress_window(&msgs, 2, TailMode::Legacy, 500, 4, 1);
    assert!(window.is_some());
    let w = window.unwrap();
    assert!(msgs.len() - w.compress_end >= 4);
}

#[test]
fn test_snap_boundary_skips_tools() {
    let msgs = vec![assistant("a"), tool("tc1", "r1"), tool("tc2", "r2"), user("next")];
    let result = snap_boundary_forward(&msgs, 1, 4);
    assert_eq!(result, 3);
}

#[test]
fn the_last_messages_are_kept() {
    let msgs = [user("a"), assistant("b")];
    assert_eq!(tail_start_by_count(&msgs, 1, 0), 1);
    assert_eq!(tail_start_by_count(&msgs, 1, 1), 1);
    let msgs = [user("a"), user("b"), assistant("c")];
    assert_eq!(tail_start_by_count(&msgs, 1, 1), 1);
    assert_eq!(tail_start_by_count(&msgs, 1, 0), 2);
}

#[test]
fn only_longer_results_are_replaced_in_the_tail() {
    let result = |text: &str| ChatMessage::tool("t".to_string(), text.to_string());
    let mut msgs = vec![result("12345"), result("1234"), result("12345")];
    assert_eq!(pressure_demote_tail(&mut msgs, 1, 4), 1);
    assert_eq!(msgs[0], result("12345"));
    assert_eq!(msgs[1], result("1234"));
    assert_eq!(
        msgs[2],
        result("[Old tool output cleared to save context space] (original 5 chars)")
    );
}

#[test]
fn a_boundary_without_a_place_stays() {
    let msgs = vec![assistant("a"), tool("tc1", "r1"), tool("tc2", "r2"), user("next")];
    assert_eq!(snap_boundary_forward(&msgs, 1, 3), 1);
    assert_eq!(snap_boundary_forward(&msgs, 0, 4), 0);
}

#[test]
fn a_short_conversation_has_no_window() {
    let msgs = vec![system("s"), user("a"), assistant("b")];
    assert_eq!(compute_compress_window(&msgs, 3, TailMode::Lean, 500, 20, 1), None);
}

fn compressor_msgs(n: usize) -> Vec<ChatMessage> {
    let mut msgs = vec![system("system"), user("goal")];
    for i in 0..n {
        msgs.push(assistant(&format!("response number {i} with some content")));
        msgs.push(tool(
            &format!("tc_{i}"),
            &format!(
                "tool result output for call {i} with detailed information {}",
                "y".repeat(200)
            ),
        ));
        if i % 5 == 4 {
            msgs.push(user(&format!("follow up question {i}")));
        }
    }
    msgs
}

fn share(context_length: usize, percent: f32) -> usize {
    (context_length as f32 * percent) as usize
}

#[test]
fn test_compress_no_llm_fallback() {
    let config = CompressionConfig {
        context_length: 8000,
        threshold_share: share(8000, 0.1),
        ..Default::default()
    };
    let mut compressor = ContextCompressor::new(config, false);
    let msgs = compressor_msgs(30);
    let compressed = match compressor.begin(msgs, None, 0) {
        Some(CompressStep::Done(m)) => m,
        other => panic!("{other:?}"),
    };
    assert!(compressed.len() < 30 * 2 + 2);
    let has_summary = compressed.iter().any(|m| {
        m.content.as_ref().map(|c| c.starts_with("[CONTEXT COMPACTION")).unwrap_or(false)
    });
    assert!(has_summary);
}

#[test]
fn test_should_compress_threshold() {
    let config = CompressionConfig {
        context_length: 8000,
        threshold_share: share(8000, 0.5),
        ..Default::default()
    };
    let compressor = ContextCompressor::new(config, false);
    let short = vec![user("hi")];
    assert!(!compressor.should_compress(&short));
}

#[test]
fn test_compress_keeps_head_and_tail() {
    let config = CompressionConfig {
        context_length: 8000,
        threshold_share: share(8000, 0.05),
        protect_first_n: 2,
        ..Default::default()
    };
    let mut compressor = ContextCompressor::new(config, false);
    let msgs = compressor_msgs(40);
    let original_last = msgs.last().unwrap().clone();
    let result = match compressor.begin(msgs.clone(), None, 0) {
        Some(CompressStep::Done(m)) => m,
        other => panic!("{other:?}"),
    };
    assert_eq!(result[0].role, Role::System);
    assert_eq!(result[1].role, Role::User);
    assert_eq!(result.last().unwrap().role, original_last.role);
}

#[test]
fn an_empty_conversation_is_left_alone() {
    let mut compressor = ContextCompressor::new(CompressionConfig::default(), false);
    assert!(compressor.begin(Vec::new(), None, 0).is_none());
}

#[test]
fn a_model_is_asked_and_its_summary_is_kept() {
    let config = CompressionConfig {
        context_length: 8000,
        threshold_share: 400,
        protect_first_n: 2,
        ..Default::default()
    };
    let mut compressor = ContextCompressor::with_fallback(config, true, true);
    let pending = match compressor.begin(compressor_msgs(40), Some("what is known"), 0) {
        Some(CompressStep::Ask(p)) => p,
        other => panic!("{other:?}"),
    };
    assert_eq!(pending.route, SummaryRoute::Auxiliary);
    assert!(pending.prompt.contains("what is known"));
    let again = match compressor.resume(pending, Err(CompressionFailure::Empty), 0) {
        CompressStep::Ask(p) => p,
        other => panic!("{other:?}"),
    };
    assert_eq!(again.route, SummaryRoute::Fallback);
    let reply = SummaryResult { text: "all went well".to_string(), truncated: false };
    let done = match compressor.resume(again, Ok(reply), 0) {
        CompressStep::Done(m) => m,
        other => panic!("{other:?}"),
    };
    assert!(done.iter().any(|m| m.content.as_deref().unwrap_or("").contains("all went well")));
    assert_eq!(compressor.state.previous_summary.as_deref(), Some("all went well"));
    assert!(compressor.stats().used_llm_summary);
}

#[test]
fn a_route_is_pinned_for_one_summary() {
    let config = CompressionConfig {
        context_length: 8000,
        threshold_share: 400,
        protect_first_n: 2,
        ..Default::default()
    };
    let mut compressor = ContextCompressor::with_fallback(config, true, true);
    compressor.pin_summary_route();
    let routes: Vec<SummaryRoute> = (0..2)
        .map(|_| match compressor.begin(compressor_msgs(40), None, 0) {
            Some(CompressStep::Ask(p)) => p.route,
            other => panic!("{other:?}"),
        })
        .collect();
    assert_eq!(routes, vec![SummaryRoute::Fallback, SummaryRoute::Auxiliary]);
    let mut alone = ContextCompressor::new(config, true);
    alone.pin_summary_route();
    assert!(!alone.pinned);
}

#[test]
fn a_summary_that_fails_for_good_is_made_without_a_model() {
    let config = CompressionConfig {
        context_length: 8000,
        threshold_share: 400,
        protect_first_n: 2,
        cooldown_seconds: 60,
        ..Default::default()
    };
    let mut compressor = ContextCompressor::new(config, true);
    let pending = match compressor.begin(compressor_msgs(40), None, 1000) {
        Some(CompressStep::Ask(p)) => p,
        other => panic!("{other:?}"),
    };
    let done = match compressor.resume(pending, Err(CompressionFailure::Empty), 1000) {
        CompressStep::Done(m) => m,
        other => panic!("{other:?}"),
    };
    assert!(done.iter().any(|m| {
        m.content
            .as_deref()
            .unwrap_or("")
            .contains("Context was compressed via fallback")
    }));
    assert_eq!(compressor.state.consecutive_failures, 1);
    // While it cools down no model is asked.
    assert!(matches!(
        compressor.begin(compressor_msgs(40), None, 2000),
        Some(CompressStep::Done(_))
    ));
    assert!(matches!(
        compressor.begin(compressor_msgs(40), None, 61_000),
        Some(CompressStep::Ask(_))
    ));
}

#[test]
fn a_failed_summary_can_leave_the_conversation_as_it_is() {
    let config = CompressionConfig {
        context_length: 8000,
        threshold_share: 400,
        protect_first_n: 2,
        abort_on_summary_failure: true,
        ..Default::default()
    };
    let mut compressor = ContextCompressor::new(config, true);
    let pending = match compressor.begin(compressor_msgs(40), None, 0) {
        Some(CompressStep::Ask(p)) => p,
        other => panic!("{other:?}"),
    };
    let before = pending.messages.len();
    match compressor.resume(pending, Err(CompressionFailure::Error("down".to_string())), 0) {
        CompressStep::Done(m) => assert_eq!(m.len(), before),
        other => panic!("{other:?}"),
    }
    assert_eq!(compressor.stats().messages_after, before);
}

#[test]
fn another_model_brings_its_window() {
    let mut compressor = ContextCompressor::new(CompressionConfig::default(), false);
    compressor.update_model(Some(0), 1, 2, 3);
    compressor.update_model(None, 1, 2, 3);
    assert_eq!(compressor.config, CompressionConfig::default());
    compressor.update_model(Some(8000), 4000, 200, 1600);
    assert_eq!(compressor.config.threshold_tokens(), 4000);
    assert_eq!(compressor.config.max_summary_tokens(), 1600);
    // A fortieth of the window, but no less than the floor.
    assert_eq!(compressor.config.tail_token_budget(), 500);
}

#[test]
fn the_reason_for_compressing_is_told() {
    let config = CompressionConfig {
        context_length: 8000,
        threshold_share: 4000,
        ..Default::default()
    };
    let mut compressor = ContextCompressor::new(config, false);
    let msgs = vec![user("a"), assistant("b"), user("c"), assistant("d")];
    let told = compressor.should_compress_preflight(&msgs);
    assert!(!told.should_compress);
    assert_eq!(told.reason, "within budget");
    compressor.record_token_usage(4100, 10);
    compressor.note_message_count(4);
    let told = compressor.should_compress_preflight(&msgs);
    assert!(told.should_compress);
    assert_eq!(told.reason, "token threshold exceeded (4100 >= 4000)");
    assert!(!compressor.should_compress(&msgs[..3]));
}

#[test]
fn an_engine_takes_its_state_up_again() {
    let mut compressor = ContextCompressor::new(CompressionConfig::default(), false);
    compressor.state.mark_success("so far".to_string());
    let stored = compressor.snapshot_state();
    assert_eq!(stored.previous_summary.as_deref(), Some("so far"));
    let mut other = ContextCompressor::new(CompressionConfig::default(), false);
    other.restore_state(stored);
    assert_eq!(other.state.previous_summary.as_deref(), Some("so far"));
    other.record_token_usage(7, 8);
    other.reset();
    assert!(other.state.previous_summary.is_none());
    assert_eq!(other.tracker.last_total_tokens, 0);
}

#[test]
fn a_summary_is_asked_for_in_two_messages() {
    let request = summary_request("what happened".to_string());
    assert_eq!(
        request,
        vec![
            system("You compress conversation history into structured checkpoints."),
            user("what happened"),
        ]
    );
}

#[test]
fn fixed_sizes_become_settings_of_the_engine() {
    let fixed = loom::config::CompressionConfig::default();
    let settings = fixed.into_context_config(0, 0, 0, 0);
    assert_eq!(settings.threshold_tokens(), 12_000);
    assert_eq!(settings.protect_first_n, 3);
    assert_eq!(settings.protect_last_n, 12);
    assert_eq!(settings.max_tool_output_chars, 4000);
    assert_eq!(settings.tail_token_budget(), 500);
    let settings = fixed.into_context_config(100_000, 12_000, 2500, 5000);
    assert_eq!(settings.threshold_tokens(), 12_000);
    assert_eq!(settings.tail_token_budget(), 2500);
    assert_eq!(settings.validate(), Ok(()));
}

#[test]
fn results_are_cut_before_a_conversation_is_compressed() {
    let config = CompressionConfig {
        context_length: 8000,
        threshold_share: 4000,
        ..Default::default()
    };
    let mut compressor = ContextCompressor::new(config, false);
    let msgs = vec![user("a"), assistant("b"), user("c"), assistant("d")];
    compressor.record_token_usage(3300, 10);
    compressor.note_message_count(4);
    let status = compressor.get_status(&msgs);
    assert!(status.approaching_limit);
    assert_eq!(status.threshold_tokens, 4000);
    let (after, due) = compressor.preflight(msgs.clone());
    assert!(!due);
    assert_eq!(after.len(), 4);
    compressor.record_token_usage(4000, 10);
    compressor.note_message_count(4);
    assert!(compressor.should_compress(&msgs));
}

#[test]
fn settings_that_do_not_hold_together_are_named() {
    let config = CompressionConfig {
        context_length: 100,
        threshold_share: 100,
        ..Default::default()
    };
    assert_eq!(
        config.validate(),
        Err("threshold (100) must be < context_length (100)".to_string())
    );
    let config = CompressionConfig { lean_tail_floor: 9, lean_tail_cap: 8, ..Default::default() };
    assert_eq!(
        config.validate(),
        Err("lean_tail_floor (9) must be <= lean_tail_cap (8)".to_string())
    );
    assert_eq!(CompressionConfig::default().validate(), Ok(()));
}

#[test]
fn test_cooldown() {
    let mut state = CompressionState::new();
    assert!(!state.is_cooling_down());
    state.mark_failure(3600);
    assert!(state.is_cooling_down());
    assert!(state.should_skip_llm_summary());
}

#[test]
fn test_terminal_failure() {
    let mut state = CompressionState::new();
    state.mark_failure(0);
    state.mark_failure(0);
    assert!(!state.terminal_failure);
    state.mark_failure(0);
    assert!(state.terminal_failure);
    assert!(state.should_skip_llm_summary());
}

#[test]
fn test_success_resets_failures() {
    let mut state = CompressionState::new();
    state.mark_failure(0);
    state.mark_failure(0);
    state.mark_failure(0);
    assert!(state.terminal_failure);
    state.mark_success("summary".to_string());
    assert!(!state.terminal_failure);
    assert_eq!(state.consecutive_failures, 0);
    assert_eq!(state.previous_summary.as_deref(), Some("summary"));
}

#[test]
fn a_cooldown_ends() {
    let mut state = CompressionState::new();
    state.mark_failure_at(1_000, 2);
    assert!(state.is_cooling_down_at(2_999));
    assert!(!state.is_cooling_down_at(3_000));
}

#[test]
fn a_state_is_restored() {
    let mut state = CompressionState::new();
    state.mark_success("before".to_string());
    let restored = CompressionState::restore(state.snapshot());
    assert_eq!(restored.previous_summary.as_deref(), Some("before"));
    assert_eq!(restored.consecutive_failures, 0);
    assert!(!restored.is_cooling_down());
    state.mark_failure(3600);
    let restored = CompressionState::restore(state.snapshot());
    assert_eq!(restored.consecutive_failures, 1);
    assert!(restored.is_cooling_down());
    let mut stored = state.snapshot();
    stored.cooldown_remaining_secs = Some(0);
    let restored = CompressionState::restore(stored);
    assert_eq!(restored.consecutive_failures, 1);
    assert!(!restored.is_cooling_down());
}

#[test]
fn test_build_summary_prompt_contains_structure() {
    let msgs = vec![
        user("Please fix the bug in main.rs"),
        ChatMessage::assistant_with_tool_calls(vec![]),
    ];
    let prompt = build_summary_prompt(&msgs, None, None, 160_000);
    assert!(prompt.contains(HISTORICAL_TASK_HEADING));
    assert!(prompt.contains("## Completed Actions"));
    assert!(prompt.contains("## Active State"));
    assert!(prompt.contains("## Open Questions"));
}

#[test]
fn test_build_summary_prompt_includes_previous() {
    let msgs = vec![user("task")];
    let prompt = build_summary_prompt(&msgs, Some("old summary"), None, 160_000);
    assert!(prompt.contains("old summary"));
    assert!(prompt.contains("Previous summary"));
}

#[test]
fn test_build_summary_prompt_includes_memory() {
    let msgs = vec![user("task")];
    let prompt = build_summary_prompt(&msgs, None, Some("memory context"), 160_000);
    assert!(prompt.contains("memory context"));
}

#[test]
fn test_fallback_summary() {
    let msgs = vec![user("do something"), ChatMessage::assistant_with_tool_calls(vec![])];
    let summary = fallback_summary(&msgs);
    assert!(summary.contains(HISTORICAL_TASK_HEADING));
    assert!(summary.contains("## Completed Actions"));
}

#[test]
fn test_assemble_summary_message() {
    let assembled = assemble_summary_message("the summary");
    assert!(assembled.starts_with("[CONTEXT COMPACTION"));
    assert!(assembled.contains("the summary"));
    assert!(assembled.ends_with(SUMMARY_END_MARKER));
}

#[test]
fn test_uncompleted_tool_calls() {
    let msgs = vec![
        ChatMessage::assistant_with_tool_calls(vec![ToolCall {
            id: "tc_1".to_string(),
            name: "read_file".to_string(),
            arguments: read_json(r#"{"path": "x.rs"}"#).unwrap(),
        }]),
        tool("tc_1", "file content"),
        ChatMessage::assistant_with_tool_calls(vec![ToolCall {
            id: "tc_2".to_string(),
            name: "write_file".to_string(),
            arguments: read_json(r#"{"path": "y.rs"}"#).unwrap(),
        }]),
    ];
    let pending = uncompleted_tool_calls(&msgs);
    assert_eq!(pending.len(), 1);
    assert!(pending[0].contains("write_file"));
}

#[test]
fn the_last_wish_of_the_user_is_found() {
    let msgs = vec![user("first"), assistant("yes"), user("second"), assistant("done")];
    assert!(latest_user_message(&msgs).contains("second"));
}

#[test]
fn a_summary_is_accepted_or_refused() {
    let given = accept_summary(&Some("fine".to_string()), &Some("stop".to_string()), 100);
    assert_eq!(given, Ok(SummaryResult { text: "fine".to_string(), truncated: false }));
    let cut = accept_summary(&Some("cut".to_string()), &Some("length".to_string()), 100);
    assert!(cut.unwrap().truncated);
    assert_eq!(accept_summary(&None, &None, 100), Err(CompressionFailure::Empty));
}

#[test]
fn test_estimate_tokens_basic() {
    let msgs = vec![system("system prompt"), user("hello world")];
    let tokens = estimate_tokens(&msgs);
    assert!(tokens > 0);
}

#[test]
fn test_token_tracker_prefers_usage() {
    let mut tracker = TokenTracker::new();
    let msgs = vec![user("test")];
    assert_eq!(tracker.current_tokens(&msgs), estimate_tokens(&msgs));
    tracker.update_from_response(5000, 100);
    tracker.note_message_count(msgs.len());
    assert_eq!(tracker.current_tokens(&msgs), 5000);
    let more_msgs = vec![user("test"), assistant("resp")];
    assert_eq!(tracker.current_tokens(&more_msgs), estimate_tokens(&more_msgs));
}

#[test]
fn test_prune_tool_outputs() {
    let mut msgs = vec![tool("tc_1", &"x".repeat(5000))];
    let n = prune_tool_outputs(&mut msgs, 100);
    assert_eq!(n, 1);
    assert!(msgs[0].content.as_ref().unwrap().contains("[truncated"));
}

#[test]
fn test_dedupe_tool_results() {
    let mut msgs = vec![tool("tc_1", "same content"), tool("tc_2", "same content")];
    let n = dedupe_tool_results(&mut msgs);
    assert_eq!(n, 1);
    assert_eq!(msgs[0].content.as_ref().unwrap(), DUPLICATE_TOOL_PLACEHOLDER);
    assert_eq!(msgs[1].content.as_ref().unwrap(), "same content");
}

#[test]
fn only_the_same_text_is_replaced() {
    let mut msgs = vec![tool("1", "one"), tool("2", "two"), tool("3", "one"), tool("4", "three")];
    assert_eq!(dedupe_tool_results(&mut msgs), 1);
    let texts: Vec<&str> = msgs.iter().map(|m| m.content.as_deref().unwrap()).collect();
    assert_eq!(texts, vec![DUPLICATE_TOOL_PLACEHOLDER, "two", "one", "three"]);
}

#[test]
fn test_skill_pruned_marker_roundtrip() {
    let marker = skill_pruned_marker("my_skill");
    assert!(marker.starts_with(SKILL_PRUNED_MARKER_PREFIX));
    let names = extract_pruned_skill_names(&marker);
    assert_eq!(names, vec!["my_skill".to_string()]);
}

#[test]
fn test_reinject_pruned_skill_markers() {
    let summary = "## Completed Actions\n1. did something";
    let names = vec!["skill_a".to_string(), "skill_b".to_string()];
    let result = reinject_pruned_skill_markers(summary, &names);
    assert!(result.contains("## Pruned Skills"));
    assert!(result.contains("skill_a"));
    assert!(result.contains("skill_b"));
    let result2 = reinject_pruned_skill_markers(&result, &names);
    assert_eq!(result2.matches("skill_a").count(), 1);
}

#[test]
fn moments_follow_one_another() {
    let a = Timestamp { secs: 1, nanos: 5 };
    let b = Timestamp { secs: 1, nanos: 6 };
    assert!(b.after(&a));
    assert!(!a.after(&b));
    let w = CompressWindow { compress_start: 1, compress_end: 2 };
    assert!(w.compress_start < w.compress_end);
}

//! What a conversation tells while it goes on.
use vstd::prelude::*;

use crate::agent_loop::types::AgentRunOutcome;
use crate::delegation::listing::CostTotals;
use crate::delegation::manager;
use crate::delegation::manager::ToldResult;
use crate::ids;
use crate::ids::id_to_text;
use crate::json;
use crate::json::{add_field, Json, JsonModel};
use crate::result;
use crate::result::{ProgressEvent, SubagentResult};

verus! {

broadcast use {
    crate::seqs::group_views,
    crate::json::fields_model_push,
    crate::json::items_model_push,
};

/// Something that is told.
#[derive(Debug, PartialEq, Eq)]
pub struct ChatEvent {
    pub name: String,
    pub data: Option<Json>,
}

/// Something that is told.
pub type ToldEvent = (Seq<char>, Option<JsonModel>);

impl View for ChatEvent {
    type V = ToldEvent;

    open spec fn view(&self) -> ToldEvent {
        (self.name@, self.data.deep_view())
    }
}

impl DeepView for ChatEvent {
    type V = ToldEvent;

    open spec fn deep_view(&self) -> ToldEvent {
        self@
    }
}

/// What is told of that name.
fn event(name: &str, data: Json) -> (r: ChatEvent)
    ensures
        r@ == (name@, Some(data@)),
{
    ChatEvent { name: String::from_str(name), data: Some(data) }
}

/// The end of what is told.
pub open spec fn done() -> ToldEvent {
    ("done"@, None)
}

/// The end of what is told.
pub fn done_event() -> (r: ChatEvent)
    ensures
        r@ == done(),
{
    ChatEvent { name: String::from_str("done"), data: None }
}

/// What is told last: how it ended, where that is told, and the end.
pub open spec fn closing(told: Option<ToldEvent>) -> Seq<ToldEvent> {
    match told {
        Some(e) => seq![e, done()],
        None => seq![done()],
    }
}

/// What is told last.
pub fn closing_events(told: Option<ChatEvent>) -> (r: Vec<ChatEvent>)
    ensures
        r.deep_view() == closing(told.deep_view()),
{
    let mut out: Vec<ChatEvent> = Vec::new();
    if let Some(e) = told {
        out.push(e);
    }
    out.push(done_event());
    assert(out.deep_view() =~= closing(told.deep_view()));
    out
}

/// What is told ends once: its last event is the end, and no other is.
pub open spec fn ends_once(told: Seq<ToldEvent>) -> bool {
    &&& told.len() > 0
    &&& forall|i: int|
        0 <= i < told.len() ==> ((#[trigger] told[i]).0 == "done"@) == (i == told.len() - 1)
}

/// What may be told before a turn ends.
pub open spec fn is_under_way(e: ToldEvent) -> bool {
    ||| e.0 == "thinking"@
    ||| e.0 == "resuming"@
    ||| e.0 == "background_results"@
    ||| e.0 == "progress"@
}

/// The agent begins to think.
pub open spec fn thinking(goal: Seq<char>, agent_id: u128, session_id: Seq<char>) -> ToldEvent {
    (
        "thinking"@,
        Some(
            JsonModel::Object(
                seq![
                    ("goal"@, JsonModel::Str(goal)),
                    ("agent_id"@, JsonModel::Str(ids::id_text(agent_id))),
                    ("session_id"@, JsonModel::Str(session_id)),
                ],
            ),
        ),
    )
}

/// The agent begins to think.
pub fn thinking_event(goal: &str, agent_id: u128, session_id: &str) -> (r: ChatEvent)
    ensures
        r@ == thinking(goal@, agent_id, session_id@),
{
    let mut o: Vec<(String, Json)> = Vec::new();
    add_field(&mut o, "goal", Json::string(goal));
    add_field(&mut o, "agent_id", Json::string(id_to_text(agent_id).as_str()));
    add_field(&mut o, "session_id", Json::string(session_id));
    let data = Json::object(o);
    assert(data@->Object_0 =~= thinking(goal@, agent_id, session_id@).1->0->Object_0);
    event("thinking", data)
}

/// A run is taken up again.
pub open spec fn resuming(
    checkpoint_id: Option<Seq<char>>,
    thread_id: Seq<char>,
    session_id: Seq<char>,
) -> ToldEvent {
    (
        "resuming"@,
        Some(
            JsonModel::Object(
                seq![
                    ("checkpoint_id"@, json::opt_str_model(checkpoint_id)),
                    ("thread_id"@, JsonModel::Str(thread_id)),
                    ("session_id"@, JsonModel::Str(session_id)),
                ],
            ),
        ),
    )
}

/// A run is taken up again.
pub fn resuming_event(checkpoint_id: &Option<String>, thread_id: &str, session_id: &str) -> (r:
    ChatEvent)
    ensures
        r@ == resuming(checkpoint_id.deep_view(), thread_id@, session_id@),
{
    let mut o: Vec<(String, Json)> = Vec::new();
    add_field(&mut o, "checkpoint_id", Json::opt_str(checkpoint_id));
    add_field(&mut o, "thread_id", Json::string(thread_id));
    add_field(&mut o, "session_id", Json::string(session_id));
    let data = Json::object(o);
    assert(data@->Object_0 =~= resuming(
        checkpoint_id.deep_view(),
        thread_id@,
        session_id@,
    ).1->0->Object_0);
    event("resuming", data)
}

// ---------- results of tasks in the background ----------

/// One result, in short.
pub open spec fn result_in_short(r: ToldResult) -> JsonModel {
    JsonModel::Object(
        seq![
            ("agent_id"@, JsonModel::Str(ids::id_text(r.0))),
            ("goal"@, JsonModel::Str(r.1)),
            ("success"@, JsonModel::Bool(r.2.success)),
        ],
    )
}

/// Results, in short.
pub open spec fn results_in_short(results: Seq<ToldResult>) -> Seq<JsonModel> {
    results.map_values(|r: ToldResult| result_in_short(r))
}

/// What the tasks have cost together.
pub open spec fn costs(c: CostTotals) -> JsonModel {
    JsonModel::Object(
        seq![
            ("total_duration_ms"@, JsonModel::Int(c.duration_ms as int)),
            ("total_iterations"@, JsonModel::Int(c.iterations as int)),
            ("total_tool_calls"@, JsonModel::Int(c.tool_calls as int)),
        ],
    )
}

/// Which results have come, and what they have cost where that is told.
pub open spec fn results_come(results: Seq<ToldResult>, cost: Option<CostTotals>) -> ToldEvent {
    let fields = seq![
        ("count"@, JsonModel::Int(results.len() as int)),
        ("results"@, JsonModel::Array(results_in_short(results))),
    ];
    (
        "background_results"@,
        Some(
            JsonModel::Object(
                match cost {
                    Some(c) => fields.push(("cost_aggregation"@, costs(c))),
                    None => fields,
                },
            ),
        ),
    )
}

/// Which results have come, and what they have cost where that is told.
pub fn results_event(
    results: &[(u128, String, SubagentResult)],
    cost: Option<CostTotals>,
) -> (r: ChatEvent)
    ensures
        r@ == results_come(manager::told_all(results@), cost),
{
    let ghost all = manager::told_all(results@);
    let mut items: Vec<Json> = Vec::new();
    let mut i: usize = 0;
    while i < results.len()
        invariant
            i <= results@.len(),
            all == manager::told_all(results@),
            items@.len() == i,
            forall|k: int| 0 <= k < i ==> (#[trigger] items@[k])@ == result_in_short(all[k]),
        decreases results@.len() - i,
    {
        let mut o: Vec<(String, Json)> = Vec::new();
        add_field(&mut o, "agent_id", Json::string(id_to_text(results[i].0).as_str()));
        add_field(&mut o, "goal", Json::string(results[i].1.as_str()));
        add_field(&mut o, "success", Json::Bool(results[i].2.success));
        let item = Json::object(o);
        assert(item@->Object_0 =~= result_in_short(all[i as int])->Object_0);
        items.push(item);
        i += 1;
    }
    assert(json::items_model(items@) =~= results_in_short(all));
    let mut o: Vec<(String, Json)> = Vec::new();
    add_field(&mut o, "count", Json::count(results.len() as u64));
    add_field(&mut o, "results", Json::array(items));
    if let Some(c) = cost {
        let mut k: Vec<(String, Json)> = Vec::new();
        add_field(&mut k, "total_duration_ms", Json::count(c.duration_ms));
        add_field(&mut k, "total_iterations", Json::count(c.iterations));
        add_field(&mut k, "total_tool_calls", Json::count(c.tool_calls));
        let value = Json::object(k);
        assert(value@->Object_0 =~= costs(c)->Object_0);
        add_field(&mut o, "cost_aggregation", value);
    }
    let data = Json::object(o);
    assert(data@->Object_0 =~= results_come(all, cost).1->0->Object_0);
    event("background_results", data)
}

// ---------- what a run comes to ----------

/// What is told of the end of a run.
pub open spec fn outcome_told(outcome: AgentRunOutcome, session_id: Seq<char>) -> ToldEvent {
    match outcome {
        AgentRunOutcome::Finished(r) => (
            "message"@,
            Some(
                JsonModel::Object(
                    seq![
                        ("text"@, JsonModel::Str(r.final_response@)),
                        ("iterations"@, JsonModel::Int(r.iterations as int)),
                        ("tool_calls_made"@, JsonModel::Int(r.tool_calls_made as int)),
                        (
                            "tool_trace"@,
                            match r.tool_trace {
                                Some(t) => result::trace_json(t@),
                                None => JsonModel::Null,
                            },
                        ),
                        ("session_id"@, JsonModel::Str(session_id)),
                    ],
                ),
            ),
        ),
        AgentRunOutcome::Interrupt { value, checkpoint_id, thread_id, history } => (
            "interrupt"@,
            Some(
                JsonModel::Object(
                    seq![
                        ("value"@, value@),
                        ("checkpoint_id"@, JsonModel::Str(checkpoint_id@)),
                        ("thread_id"@, JsonModel::Str(thread_id@)),
                        ("session_id"@, JsonModel::Str(session_id)),
                    ],
                ),
            ),
        ),
    }
}

/// What is told of the end of a run.
pub fn outcome_event(outcome: &AgentRunOutcome, session_id: &str) -> (r: ChatEvent)
    ensures
        r@ == outcome_told(*outcome, session_id@),
{
    let mut o: Vec<(String, Json)> = Vec::new();
    match outcome {
        AgentRunOutcome::Finished(run) => {
            add_field(&mut o, "text", Json::string(run.final_response.as_str()));
            add_field(&mut o, "iterations", Json::count(run.iterations as u64));
            add_field(&mut o, "tool_calls_made", Json::count(run.tool_calls_made as u64));
            let trace = match &run.tool_trace {
                Some(t) => t.to_json(),
                None => Json::Null,
            };
            add_field(&mut o, "tool_trace", trace);
            add_field(&mut o, "session_id", Json::string(session_id));
            let data = Json::object(o);
            assert(data@->Object_0 =~= outcome_told(*outcome, session_id@).1->0->Object_0);
            event("message", data)
        },
        AgentRunOutcome::Interrupt { value, checkpoint_id, thread_id, .. } => {
            add_field(&mut o, "value", value.clone());
            add_field(&mut o, "checkpoint_id", Json::string(checkpoint_id.as_str()));
            add_field(&mut o, "thread_id", Json::string(thread_id.as_str()));
            add_field(&mut o, "session_id", Json::string(session_id));
            let data = Json::object(o);
            assert(data@->Object_0 =~= outcome_told(*outcome, session_id@).1->0->Object_0);
            event("interrupt", data)
        },
    }
}

/// What is told of a run that fails.
pub open spec fn failure_told(error: Seq<char>, session_id: Seq<char>) -> ToldEvent {
    (
        "error"@,
        Some(
            JsonModel::Object(
                seq![
                    ("error"@, JsonModel::Str(error)),
                    ("session_id"@, JsonModel::Str(session_id)),
                ],
            ),
        ),
    )
}

/// What is told of a run that fails.
pub fn failure_event(error: &str, session_id: &str) -> (r: ChatEvent)
    ensures
        r@ == failure_told(error@, session_id@),
{
    let mut o: Vec<(String, Json)> = Vec::new();
    add_field(&mut o, "error", Json::string(error));
    add_field(&mut o, "session_id", Json::string(session_id));
    let data = Json::object(o);
    assert(data@->Object_0 =~= failure_told(error@, session_id@).1->0->Object_0);
    event("error", data)
}

// ---------- progress ----------

/// How far a run has come.
pub open spec fn progress_json(p: ProgressEvent) -> JsonModel {
    match p {
        ProgressEvent::Iteration { iteration } => JsonModel::Object(
            seq![
                ("type"@, JsonModel::Str("iteration"@)),
                ("iteration"@, JsonModel::Int(iteration as int)),
            ],
        ),
        ProgressEvent::ToolStart { tool, arguments } => JsonModel::Object(
            seq![
                ("type"@, JsonModel::Str("tool_start"@)),
                ("tool"@, JsonModel::Str(tool@)),
                (
                    "arguments"@,
                    match arguments {
                        Some(a) => a@,
                        None => JsonModel::Null,
                    },
                ),
            ],
        ),
        ProgressEvent::ToolEnd { tool, result, is_error } => JsonModel::Object(
            seq![
                ("type"@, JsonModel::Str("tool_end"@)),
                ("tool"@, JsonModel::Str(tool@)),
                ("result"@, JsonModel::Str(result@)),
                ("is_error"@, JsonModel::Bool(is_error)),
            ],
        ),
    }
}

impl ProgressEvent {
    /// How far a run has come.
    pub fn to_json(&self) -> (r: Json)
        ensures
            r@ == progress_json(*self),
    {
        let mut o: Vec<(String, Json)> = Vec::new();
        match self {
            ProgressEvent::Iteration { iteration } => {
                add_field(&mut o, "type", Json::string("iteration"));
                add_field(&mut o, "iteration", Json::count(*iteration as u64));
            },
            ProgressEvent::ToolStart { tool, arguments } => {
                add_field(&mut o, "type", Json::string("tool_start"));
                add_field(&mut o, "tool", Json::string(tool.as_str()));
                let a = match arguments {
                    Some(a) => a.clone(),
                    None => Json::Null,
                };
                add_field(&mut o, "arguments", a);
            },
            ProgressEvent::ToolEnd { tool, result, is_error } => {
                add_field(&mut o, "type", Json::string("tool_end"));
                add_field(&mut o, "tool", Json::string(tool.as_str()));
                add_field(&mut o, "result", Json::string(result.as_str()));
                add_field(&mut o, "is_error", Json::Bool(*is_error));
            },
        }
        let r = Json::object(o);
        assert(r@->Object_0 =~= progress_json(*self)->Object_0);
        r
    }
}

/// How far a run has come, as it is told.
pub open spec fn progress_told(p: ProgressEvent) -> ToldEvent {
    ("progress"@, Some(progress_json(p)))
}

/// How far a run has come, as it is told.
pub fn progress_event(p: &ProgressEvent) -> (r: ChatEvent)
    ensures
        r@ == progress_told(*p),
{
    event("progress", p.to_json())
}

/// What comes of a run is told with its session: a response with its text and how much was
/// done, a question with what a human is shown and where the run is taken up again.
pub proof fn an_outcome_is_told(o: AgentRunOutcome, session_id: Seq<char>)
    ensures
        outcome_told(o, session_id).1 matches Some(data) && data.get("session_id"@) == Some(
            JsonModel::Str(session_id),
        ) && match o {
            AgentRunOutcome::Finished(r) => outcome_told(o, session_id).0 == "message"@
                && data.get("text"@) == Some(JsonModel::Str(r.final_response@)) && data.get(
                "iterations"@,
            ) == Some(JsonModel::Int(r.iterations as int)) && data.get("tool_calls_made"@) == Some(
                JsonModel::Int(r.tool_calls_made as int),
            ) && (r.tool_trace matches Some(t) ==> data.get("tool_trace"@) == Some(
                result::trace_json(t@),
            )),
            AgentRunOutcome::Interrupt { value, checkpoint_id, thread_id, history } =>
                outcome_told(o, session_id).0 == "interrupt"@ && data.get("value"@) == Some(value@)
                    && data.get("checkpoint_id"@) == Some(JsonModel::Str(checkpoint_id@))
                    && data.get("thread_id"@) == Some(JsonModel::Str(thread_id@)),
        },
{
    let f = outcome_told(o, session_id).1->0->Object_0;
    reveal_strlit("text");
    reveal_strlit("iterations");
    reveal_strlit("tool_calls_made");
    reveal_strlit("tool_trace");
    reveal_strlit("session_id");
    reveal_strlit("value");
    reveal_strlit("checkpoint_id");
    reveal_strlit("thread_id");
    assert("text"@.len() == 4);
    assert("iterations"@.len() == 10);
    assert("tool_calls_made"@.len() == 15);
    assert("tool_trace"@.len() == 10);
    assert("session_id"@.len() == 10);
    assert("value"@.len() == 5);
    assert("checkpoint_id"@.len() == 13);
    assert("thread_id"@.len() == 9);
    assert("iterations"@[0] == 'i');
    assert("session_id"@[0] == 's');
    assert("tool_trace"@[0] == 't');
    match o {
        AgentRunOutcome::Finished(r) => {
            json::a_field_is_found(f, 0);
            json::a_field_is_found(f, 1);
            json::a_field_is_found(f, 2);
            json::a_field_is_found(f, 3);
            json::a_field_is_found(f, 4);
        },
        AgentRunOutcome::Interrupt { value, checkpoint_id, thread_id, history } => {
            json::a_field_is_found(f, 0);
            json::a_field_is_found(f, 1);
            json::a_field_is_found(f, 2);
            json::a_field_is_found(f, 3);
        },
    }
}

/// A failure is told with its error and its session.
pub proof fn a_failure_is_told(error: Seq<char>, session_id: Seq<char>)
    ensures
        failure_told(error, session_id).0 == "error"@,
        failure_told(error, session_id).1 matches Some(data) && data.get("error"@) == Some(
            JsonModel::Str(error),
        ) && data.get("session_id"@) == Some(JsonModel::Str(session_id)),
{
    let f = failure_told(error, session_id).1->0->Object_0;
    reveal_strlit("error");
    reveal_strlit("session_id");
    assert("error"@.len() == 5);
    assert("session_id"@.len() == 10);
    json::a_field_is_found(f, 0);
    json::a_field_is_found(f, 1);
}

/// Whoever listens is told what is being thought about, by whom and in which session, and
/// which run is taken up again.
pub proof fn what_is_under_way_is_told(
    goal: Seq<char>,
    agent_id: u128,
    session_id: Seq<char>,
    checkpoint_id: Seq<char>,
    thread_id: Seq<char>,
)
    ensures
        thinking(goal, agent_id, session_id).1 matches Some(data) && data.get("goal"@) == Some(
            JsonModel::Str(goal),
        ) && data.get("agent_id"@) == Some(JsonModel::Str(ids::id_text(agent_id))) && data.get(
            "session_id"@,
        ) == Some(JsonModel::Str(session_id)),
        resuming(Some(checkpoint_id), thread_id, session_id).1 matches Some(data) && data.get(
            "checkpoint_id"@,
        ) == Some(JsonModel::Str(checkpoint_id)) && data.get("thread_id"@) == Some(
            JsonModel::Str(thread_id),
        ) && data.get("session_id"@) == Some(JsonModel::Str(session_id)),
{
    let f = thinking(goal, agent_id, session_id).1->0->Object_0;
    let g = resuming(Some(checkpoint_id), thread_id, session_id).1->0->Object_0;
    reveal_strlit("goal");
    reveal_strlit("agent_id");
    reveal_strlit("session_id");
    reveal_strlit("checkpoint_id");
    reveal_strlit("thread_id");
    assert("goal"@.len() == 4);
    assert("agent_id"@.len() == 8);
    assert("session_id"@.len() == 10);
    assert("checkpoint_id"@.len() == 13);
    assert("thread_id"@.len() == 9);
    json::a_field_is_found(f, 0);
    json::a_field_is_found(f, 1);
    json::a_field_is_found(f, 2);
    json::a_field_is_found(g, 0);
    json::a_field_is_found(g, 1);
    json::a_field_is_found(g, 2);
}

/// Results that come are told by their number, each with its agent, its goal and whether it
/// succeeded, and with what they have cost where that is known.
pub proof fn results_that_come_are_told(results: Seq<ToldResult>, c: CostTotals, i: int)
    requires
        0 <= i < results.len(),
    ensures
        ({
            let told = results_come(results, Some(c));
            let bare = results_come(results, None);
            &&& told.0 == "background_results"@
            &&& told.1 matches Some(data) && data.get("count"@) == Some(
                JsonModel::Int(results.len() as int),
            ) && data.get("cost_aggregation"@) == Some(costs(c)) && (data.get("results"@) matches
                Some(JsonModel::Array(a)) && a.len() == results.len() && a[i].get("agent_id"@)
                == Some(JsonModel::Str(ids::id_text(results[i].0))) && a[i].get("goal"@) == Some(
                JsonModel::Str(results[i].1),
            ) && a[i].get("success"@) == Some(JsonModel::Bool(results[i].2.success)))
            &&& bare.1 matches Some(data) && data.get("results"@) == told.1->0.get("results"@)
            &&& costs(c).get("total_duration_ms"@) == Some(JsonModel::Int(c.duration_ms as int))
            &&& costs(c).get("total_iterations"@) == Some(JsonModel::Int(c.iterations as int))
            &&& costs(c).get("total_tool_calls"@) == Some(JsonModel::Int(c.tool_calls as int))
        }),
{
    let f = results_come(results, Some(c)).1->0->Object_0;
    let g = results_come(results, None).1->0->Object_0;
    let h = costs(c)->Object_0;
    let a = results_in_short(results);
    let e = result_in_short(results[i])->Object_0;
    reveal_strlit("count");
    reveal_strlit("results");
    reveal_strlit("cost_aggregation");
    reveal_strlit("agent_id");
    reveal_strlit("goal");
    reveal_strlit("success");
    reveal_strlit("total_duration_ms");
    reveal_strlit("total_iterations");
    reveal_strlit("total_tool_calls");
    assert("count"@.len() == 5);
    assert("results"@.len() == 7);
    assert("cost_aggregation"@.len() == 16);
    assert("agent_id"@.len() == 8);
    assert("goal"@.len() == 4);
    assert("success"@.len() == 7);
    assert("total_duration_ms"@.len() == 17);
    assert("total_iterations"@.len() == 16);
    assert("total_tool_calls"@.len() == 16);
    assert("cost_aggregation"@[0] == 'c');
    assert("results"@[0] == 'r');
    assert("success"@[0] == 's');
    assert("total_iterations"@[0] == 't');
    assert("total_iterations"@[6] == 'i');
    assert("total_tool_calls"@[0] == 't');
    assert("total_tool_calls"@[6] == 't');
    json::a_field_is_found(f, 0);
    json::a_field_is_found(f, 1);
    json::a_field_is_found(f, 2);
    json::a_field_is_found(g, 0);
    json::a_field_is_found(g, 1);
    json::a_field_is_found(h, 0);
    json::a_field_is_found(h, 1);
    json::a_field_is_found(h, 2);
    assert(a[i] == result_in_short(results[i]));
    json::a_field_is_found(e, 0);
    json::a_field_is_found(e, 1);
    json::a_field_is_found(e, 2);
}

/// The steps of a run are told as they happen: a round by its number, a call by its tool and
/// its arguments, and what comes of it with the result and whether it failed.
pub proof fn steps_are_told(iteration: usize, tool: String, arguments: Json, out: String, bad: bool)
    ensures
        progress_json(ProgressEvent::Iteration { iteration }).get("iteration"@) == Some(
            JsonModel::Int(iteration as int),
        ),
        progress_json(ProgressEvent::Iteration { iteration }).get("type"@) == Some(
            JsonModel::Str("iteration"@),
        ),
        ({
            let s = progress_json(ProgressEvent::ToolStart { tool, arguments: Some(arguments) });
            let e = progress_json(ProgressEvent::ToolEnd { tool, result: out, is_error: bad });
            &&& s.get("type"@) == Some(JsonModel::Str("tool_start"@))
            &&& s.get("tool"@) == Some(JsonModel::Str(tool@))
            &&& s.get("arguments"@) == Some(arguments@)
            &&& e.get("type"@) == Some(JsonModel::Str("tool_end"@))
            &&& e.get("tool"@) == Some(JsonModel::Str(tool@))
            &&& e.get("result"@) == Some(JsonModel::Str(out@))
            &&& e.get("is_error"@) == Some(JsonModel::Bool(bad))
        }),
{
    let i = progress_json(ProgressEvent::Iteration { iteration })->Object_0;
    let s = progress_json(ProgressEvent::ToolStart { tool, arguments: Some(arguments) })->Object_0;
    let e = progress_json(ProgressEvent::ToolEnd { tool, result: out, is_error: bad })->Object_0;
    reveal_strlit("type");
    reveal_strlit("iteration");
    reveal_strlit("tool");
    reveal_strlit("arguments");
    reveal_strlit("result");
    reveal_strlit("is_error");
    assert("type"@.len() == 4);
    assert("iteration"@.len() == 9);
    assert("tool"@.len() == 4);
    assert("arguments"@.len() == 9);
    assert("result"@.len() == 6);
    assert("is_error"@.len() == 8);
    assert("arguments"@[0] == 'a');
    assert("iteration"@[0] == 'i');
    assert("tool"@[1] == 'o');
    assert("type"@[1] == 'y');
    json::a_field_is_found(i, 0);
    json::a_field_is_found(i, 1);
    json::a_field_is_found(s, 0);
    json::a_field_is_found(s, 1);
    json::a_field_is_found(s, 2);
    json::a_field_is_found(e, 0);
    json::a_field_is_found(e, 1);
    json::a_field_is_found(e, 2);
    json::a_field_is_found(e, 3);
}

} // verus!

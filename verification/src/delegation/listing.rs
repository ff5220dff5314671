//! What a parent is told of its sub-agents.
use vstd::prelude::*;

use crate::clock;
use crate::clock::seconds_json;
use crate::delegation::registry;
use crate::delegation::registry::BackgroundTaskRegistry;
use crate::delegation::types;
use crate::delegation::types::{
    ActivitySnapshot, BackgroundTask, BackgroundTaskStatus, SnapshotModel, TaskModel,
};
use crate::ids;
use crate::ids::id_to_text;
use crate::json;
use crate::json::{add_field, set_field, Json, JsonModel};
use crate::lifecycle;
use crate::lifecycle::{AgentHandle, HandleModel};
use crate::result;
use crate::seqs;

verus! {

broadcast use {
    crate::seqs::group_views,
    crate::json::items_model_push,
    crate::json::fields_model_push,
};

/// A string value.
pub open spec fn str_json(s: Seq<char>) -> JsonModel {
    JsonModel::Str(s)
}

// ---------- agents ----------

/// An agent as JSON.
pub open spec fn handle_json(h: HandleModel) -> JsonModel {
    JsonModel::Object(
        seq![
            ("agent_id"@, str_json(ids::id_text(h.agent_id))),
            ("goal"@, str_json(h.goal)),
            ("state"@, str_json(lifecycle::state_name(h.state))),
            ("created_at"@, str_json(h.created_at.text())),
        ],
    )
}

/// The children of an agent as JSON.
pub open spec fn children_json(agents: Seq<HandleModel>, parent: u128) -> Seq<JsonModel>
    decreases agents.len(),
{
    if agents.len() == 0 {
        Seq::empty()
    } else {
        let rest = children_json(agents.drop_last(), parent);
        if agents.last().parent_agent_id == Some(parent) {
            rest.push(handle_json(agents.last()))
        } else {
            rest
        }
    }
}

/// An agent as JSON.
fn handle_to_json(h: &AgentHandle) -> (r: Json)
    ensures
        r@ == handle_json(h@),
{
    let mut o: Vec<(String, Json)> = Vec::new();
    add_field(&mut o, "agent_id", Json::Str(id_to_text(h.agent_id)));
    add_field(&mut o, "goal", Json::Str(h.goal.clone()));
    add_field(&mut o, "state", Json::string(h.state.name()));
    add_field(&mut o, "created_at", Json::Str(h.created_at.to_text()));
    let r = Json::object(o);
    assert(r@->Object_0 =~= handle_json(h@)->Object_0);
    r
}

/// Whether the agent is a child of the other.
pub fn is_child(h: &AgentHandle, parent: u128) -> (r: bool)
    ensures
        r == (h.parent_agent_id == Some(parent)),
{
    match h.parent_agent_id {
        Some(p) => p == parent,
        None => false,
    }
}

/// The children of an agent as JSON.
fn list_children(agents: &[AgentHandle], parent: u128) -> (r: Vec<Json>)
    ensures
        json::items_model(r@) == children_json(agents.deep_view(), parent),
{
    let ghost all = agents.deep_view();
    let mut out: Vec<Json> = Vec::new();
    let mut i: usize = 0;
    assert(all.take(0) =~= Seq::<HandleModel>::empty());
    assert(json::items_model(out@) =~= Seq::<JsonModel>::empty());
    while i < agents.len()
        invariant
            i <= agents@.len(),
            all == agents.deep_view(),
            json::items_model(out@) == children_json(all.take(i as int), parent),
        decreases agents@.len() - i,
    {
        proof {
            assert(all.take(i + 1).drop_last() =~= all.take(i as int));
            assert(all.take(i + 1).last() == all[i as int]);
        }
        if is_child(&agents[i], parent) {
            out.push(handle_to_json(&agents[i]));
        }
        i += 1;
    }
    assert(all.take(i as int) =~= all);
    out
}

// ---------- tasks that are running ----------

/// A sample as JSON.
pub open spec fn snapshot_json(s: SnapshotModel) -> JsonModel {
    JsonModel::Object(
        seq![
            ("timestamp"@, clock::seconds_model(s.timestamp_ms)),
            ("iterations"@, JsonModel::Int(s.iterations as int)),
            ("api_call_count"@, JsonModel::Int(s.api_call_count as int)),
            ("current_tool"@, json::opt_str_model(s.current_tool)),
            ("last_activity_ts"@, json::opt_str_model(s.last_activity_ts)),
        ],
    )
}

/// A running task as JSON.
pub open spec fn running_json(t: TaskModel) -> JsonModel {
    JsonModel::Object(
        seq![
            ("delegation_id"@, str_json(ids::id_text(t.delegation_id))),
            ("agent_id"@, str_json(ids::id_text(t.child_agent_id))),
            ("goal"@, str_json(t.goal)),
            ("status"@, str_json("running"@)),
            ("dispatched_at"@, clock::seconds_model(t.dispatched_at_ms)),
            (
                "live_transcript"@,
                JsonModel::Array(t.live_transcript.map_values(|s: SnapshotModel| snapshot_json(s))),
            ),
        ],
    )
}

/// The tasks that are running as JSON.
pub open spec fn all_running_json(tasks: Seq<TaskModel>) -> Seq<JsonModel>
    decreases tasks.len(),
{
    if tasks.len() == 0 {
        Seq::empty()
    } else {
        let rest = all_running_json(tasks.drop_last());
        if tasks.last().status == BackgroundTaskStatus::Running {
            rest.push(running_json(tasks.last()))
        } else {
            rest
        }
    }
}

/// A sample as JSON.
fn snapshot_to_json(s: &ActivitySnapshot) -> (r: Json)
    ensures
        r@ == snapshot_json(s@),
{
    let mut o: Vec<(String, Json)> = Vec::new();
    add_field(&mut o, "timestamp", seconds_json(s.timestamp_ms));
    add_field(&mut o, "iterations", Json::count(s.iterations));
    add_field(&mut o, "api_call_count", Json::count(s.api_call_count));
    add_field(&mut o, "current_tool", Json::opt_str(&s.current_tool));
    add_field(&mut o, "last_activity_ts", Json::opt_str(&s.last_activity_ts));
    let r = Json::object(o);
    assert(r@->Object_0 =~= snapshot_json(s@)->Object_0);
    r
}

/// A running task as JSON.
fn running_to_json(t: &BackgroundTask) -> (r: Json)
    ensures
        r@ == running_json(t@),
{
    let ghost log = t@.live_transcript;
    let mut transcript: Vec<Json> = Vec::new();
    let mut i: usize = 0;
    while i < t.live_transcript.len()
        invariant
            i <= t.live_transcript@.len(),
            log == t.live_transcript.deep_view(),
            transcript@.len() == i,
            forall|j: int| 0 <= j < i ==> (#[trigger] transcript@[j])@ == snapshot_json(log[j]),
        decreases t.live_transcript@.len() - i,
    {
        transcript.push(snapshot_to_json(&t.live_transcript[i]));
        i += 1;
    }
    assert(json::items_model(transcript@) =~= log.map_values(
        |s: SnapshotModel| snapshot_json(s),
    ));
    let mut o: Vec<(String, Json)> = Vec::new();
    add_field(&mut o, "delegation_id", Json::Str(id_to_text(t.delegation_id)));
    add_field(&mut o, "agent_id", Json::Str(id_to_text(t.child_agent_id)));
    add_field(&mut o, "goal", Json::Str(t.goal.clone()));
    add_field(&mut o, "status", Json::string("running"));
    add_field(&mut o, "dispatched_at", seconds_json(t.dispatched_at_ms));
    add_field(&mut o, "live_transcript", Json::array(transcript));
    let r = Json::object(o);
    assert(r@->Object_0 =~= running_json(t@)->Object_0);
    r
}

/// The tasks that are running as JSON.
fn list_running_tasks(tasks: &[BackgroundTask]) -> (r: Vec<Json>)
    ensures
        json::items_model(r@) == all_running_json(tasks.deep_view()),
{
    let ghost all = tasks.deep_view();
    let mut out: Vec<Json> = Vec::new();
    let mut i: usize = 0;
    assert(all.take(0) =~= Seq::<TaskModel>::empty());
    assert(json::items_model(out@) =~= Seq::<JsonModel>::empty());
    while i < tasks.len()
        invariant
            i <= tasks@.len(),
            all == tasks.deep_view(),
            json::items_model(out@) == all_running_json(all.take(i as int)),
        decreases tasks@.len() - i,
    {
        proof {
            assert(all.take(i + 1).drop_last() =~= all.take(i as int));
            assert(all.take(i + 1).last() == all[i as int]);
        }
        if tasks[i].status == BackgroundTaskStatus::Running {
            out.push(running_to_json(&tasks[i]));
        }
        i += 1;
    }
    assert(all.take(i as int) =~= all);
    out
}

// ---------- tasks that have ended ----------

/// The name of the state of a task that has ended.
pub open spec fn ended_name(status: BackgroundTaskStatus) -> Seq<char> {
    match status {
        BackgroundTaskStatus::Completed => "completed"@,
        BackgroundTaskStatus::Failed => "failed"@,
        BackgroundTaskStatus::Stale => "stale"@,
        _ => "unknown"@,
    }
}

/// The name of the state of a task that has ended.
fn ended_status_name(status: BackgroundTaskStatus) -> (r: &'static str)
    ensures
        r@ == ended_name(status),
{
    match status {
        BackgroundTaskStatus::Completed => "completed",
        BackgroundTaskStatus::Failed => "failed",
        BackgroundTaskStatus::Stale => "stale",
        _ => "unknown",
    }
}

/// The fields of a result; those of a failure where there is none.
pub open spec fn outcome_fields(t: TaskModel) -> Seq<(Seq<char>, JsonModel)> {
    match t.result {
        Some(r) => result::result_fields(r),
        None => seq![
            ("success"@, JsonModel::Bool(false)),
            ("summary"@, str_json("no result"@)),
        ],
    }
}

/// A task that has ended as JSON: its result, and what it was.
pub open spec fn ended_json(t: TaskModel) -> JsonModel {
    let a = json::with_field(
        outcome_fields(t),
        "delegation_id"@,
        str_json(ids::id_text(t.delegation_id)),
    );
    let b = json::with_field(a, "agent_id"@, str_json(ids::id_text(t.child_agent_id)));
    let c = json::with_field(b, "goal"@, str_json(t.goal));
    let d = json::with_field(c, "status"@, str_json(ended_name(t.status)));
    JsonModel::Object(
        match t.completed_at_ms {
            Some(ms) => json::with_field(d, "completed_at"@, clock::seconds_model(ms)),
            None => d,
        },
    )
}

/// A task that has ended as JSON.
fn ended_to_json(t: &BackgroundTask) -> (r: Json)
    ensures
        r@ == ended_json(t@),
{
    let mut o: Vec<(String, Json)> = match &t.result {
        Some(r) => r.to_fields(),
        None => {
            let mut f: Vec<(String, Json)> = Vec::new();
            add_field(&mut f, "success", Json::Bool(false));
            add_field(&mut f, "summary", Json::string("no result"));
            f
        },
    };
    assert(json::fields_model(o@) =~= outcome_fields(t@));
    set_field(&mut o, "delegation_id", Json::Str(id_to_text(t.delegation_id)));
    set_field(&mut o, "agent_id", Json::Str(id_to_text(t.child_agent_id)));
    set_field(&mut o, "goal", Json::Str(t.goal.clone()));
    set_field(&mut o, "status", Json::string(ended_status_name(t.status)));
    if let Some(ms) = t.completed_at_ms {
        set_field(&mut o, "completed_at", seconds_json(ms));
    }
    Json::object(o)
}

/// Tasks that have ended as JSON.
fn list_ended(tasks: &[BackgroundTask]) -> (r: Vec<Json>)
    ensures
        json::items_model(r@) == tasks.deep_view().map_values(|t: TaskModel| ended_json(t)),
{
    let ghost all = tasks.deep_view();
    let mut out: Vec<Json> = Vec::new();
    let mut i: usize = 0;
    while i < tasks.len()
        invariant
            i <= tasks@.len(),
            all == tasks.deep_view(),
            out@.len() == i,
            forall|j: int| 0 <= j < i ==> (#[trigger] out@[j])@ == ended_json(all[j]),
        decreases tasks@.len() - i,
    {
        out.push(ended_to_json(&tasks[i]));
        i += 1;
    }
    assert(json::items_model(out@) =~= all.map_values(|t: TaskModel| ended_json(t)));
    out
}

// ---------- batches ----------

/// The batches of the tasks, in the order in which they first occur.
pub open spec fn batch_ids(tasks: Seq<TaskModel>) -> Seq<u128> {
    seqs::distinct(tasks.map_values(|t: TaskModel| t.delegation_id))
}

/// How many tasks belong to a batch.
pub open spec fn batch_size(tasks: Seq<TaskModel>, batch: u128) -> int
    decreases tasks.len(),
{
    if tasks.len() == 0 {
        0
    } else {
        batch_size(tasks.drop_last(), batch) + if tasks.last().delegation_id == batch {
            1int
        } else {
            0
        }
    }
}

/// How many tasks of a batch have ended.
pub open spec fn batch_ended(tasks: Seq<TaskModel>, batch: u128) -> int
    decreases tasks.len(),
{
    if tasks.len() == 0 {
        0
    } else {
        batch_ended(tasks.drop_last(), batch) + if tasks.last().delegation_id == batch
            && registry::is_ended(tasks.last().status) {
            1int
        } else {
            0
        }
    }
}

/// A state in which a task has ended without success.
pub open spec fn is_failed(status: BackgroundTaskStatus) -> bool {
    status == BackgroundTaskStatus::Failed || status == BackgroundTaskStatus::Stale
}

/// How many tasks of a batch have failed.
pub open spec fn batch_failed(tasks: Seq<TaskModel>, batch: u128) -> int
    decreases tasks.len(),
{
    if tasks.len() == 0 {
        0
    } else {
        batch_failed(tasks.drop_last(), batch) + if tasks.last().delegation_id == batch
            && is_failed(tasks.last().status) {
            1int
        } else {
            0
        }
    }
}

/// The state of a batch.
pub open spec fn batch_state(total: int, ended: int, failed: int) -> Seq<char> {
    if ended == total {
        if failed > 0 {
            "partial_failed"@
        } else {
            "all_completed"@
        }
    } else if ended > 0 {
        "partial_completed"@
    } else {
        "running"@
    }
}

/// A batch as JSON.
pub open spec fn batch_json(tasks: Seq<TaskModel>, batch: u128) -> JsonModel {
    let total = batch_size(tasks, batch);
    let ended = batch_ended(tasks, batch);
    let failed = batch_failed(tasks, batch);
    JsonModel::Object(
        seq![
            ("delegation_id"@, str_json(ids::id_text(batch))),
            ("total_tasks"@, JsonModel::Int(total)),
            ("completed_tasks"@, JsonModel::Int(ended)),
            ("failed_tasks"@, JsonModel::Int(failed)),
            ("status"@, str_json(batch_state(total, ended, failed))),
        ],
    )
}

/// A batch as JSON.
fn batch_to_json(tasks: &[BackgroundTask], batch: u128) -> (r: Json)
    ensures
        r@ == batch_json(tasks.deep_view(), batch),
{
    let ghost all = tasks.deep_view();
    let mut total: u64 = 0;
    let mut ended: u64 = 0;
    let mut failed: u64 = 0;
    let mut i: usize = 0;
    assert(all.take(0) =~= Seq::<TaskModel>::empty());
    while i < tasks.len()
        invariant
            i <= tasks@.len(),
            all == tasks.deep_view(),
            total == batch_size(all.take(i as int), batch),
            ended == batch_ended(all.take(i as int), batch),
            failed == batch_failed(all.take(i as int), batch),
            total <= i,
            ended <= i,
            failed <= i,
        decreases tasks@.len() - i,
    {
        proof {
            assert(all.take(i + 1).drop_last() =~= all.take(i as int));
            assert(all.take(i + 1).last() == all[i as int]);
        }
        if tasks[i].delegation_id == batch {
            total += 1;
            let status = tasks[i].status;
            if status == BackgroundTaskStatus::Completed || status == BackgroundTaskStatus::Failed
                || status == BackgroundTaskStatus::Stale {
                ended += 1;
            }
            if status == BackgroundTaskStatus::Failed || status == BackgroundTaskStatus::Stale {
                failed += 1;
            }
        }
        i += 1;
    }
    assert(all.take(i as int) =~= all);
    let state = if ended == total {
        if failed > 0 {
            "partial_failed"
        } else {
            "all_completed"
        }
    } else if ended > 0 {
        "partial_completed"
    } else {
        "running"
    };
    let mut o: Vec<(String, Json)> = Vec::new();
    add_field(&mut o, "delegation_id", Json::Str(id_to_text(batch)));
    add_field(&mut o, "total_tasks", Json::count(total));
    add_field(&mut o, "completed_tasks", Json::count(ended));
    add_field(&mut o, "failed_tasks", Json::count(failed));
    add_field(&mut o, "status", Json::string(state));
    let r = Json::object(o);
    assert(r@->Object_0 =~= batch_json(all, batch)->Object_0);
    r
}

/// The batches of the tasks, in the order in which they first occur.
fn list_batches(tasks: &[BackgroundTask]) -> (r: Vec<Json>)
    ensures
        json::items_model(r@) == batch_ids(tasks.deep_view()).map_values(
            |b: u128| batch_json(tasks.deep_view(), b),
        ),
{
    let ghost all = tasks.deep_view();
    let ghost of = all.map_values(|t: TaskModel| t.delegation_id);
    let mut batches: Vec<u128> = Vec::new();
    let mut i: usize = 0;
    assert(of.take(0) =~= Seq::<u128>::empty());
    while i < tasks.len()
        invariant
            i <= tasks@.len(),
            all == tasks.deep_view(),
            of == all.map_values(|t: TaskModel| t.delegation_id),
            batches@ == seqs::distinct(of.take(i as int)),
        decreases tasks@.len() - i,
    {
        proof {
            assert(of.take(i + 1).drop_last() =~= of.take(i as int));
            assert(of.take(i + 1).last() == tasks@[i as int].delegation_id);
            seqs::distinct_keeps(of.take(i as int));
        }
        let id: u128 = tasks[i].delegation_id;
        let mut known = false;
        let mut k: usize = 0;
        while k < batches.len()
            invariant
                k <= batches@.len(),
                known == batches@.take(k as int).contains(id),
            decreases batches@.len() - k,
        {
            proof {
                assert(batches@.take(k + 1) =~= batches@.take(k as int).push(batches@[k as int]));
                assert(batches@.take(k + 1)[k as int] == batches@[k as int]);
                if batches@.take(k as int).contains(id) {
                    let m = batches@.take(k as int).index_of(id);
                    assert(batches@.take(k + 1)[m] == id);
                }
            }
            if batches[k] == id {
                known = true;
            }
            k += 1;
        }
        assert(batches@.take(k as int) =~= batches@);
        if !known {
            batches.push(id);
        }
        i += 1;
    }
    assert(of.take(i as int) =~= of);
    let ghost ids = batches@;
    let mut out: Vec<Json> = Vec::new();
    let mut k: usize = 0;
    while k < batches.len()
        invariant
            k <= batches@.len(),
            ids == batches@,
            all == tasks.deep_view(),
            out@.len() == k,
            forall|j: int| 0 <= j < k ==> (#[trigger] out@[j])@ == batch_json(all, ids[j]),
        decreases batches@.len() - k,
    {
        out.push(batch_to_json(tasks, batches[k]));
        k += 1;
    }
    assert(json::items_model(out@) =~= ids.map_values(
        |b: u128| batch_json(tasks.deep_view(), b),
    ));
    out
}

// ---------- costs ----------

/// What the tasks have cost together.
#[derive(Debug, Clone, Copy, PartialEq, Eq, Structural)]
pub struct CostTotals {
    pub duration_ms: u64,
    pub iterations: u64,
    pub tool_calls: u64,
}

/// How long the tasks took together.
pub open spec fn total_duration(tasks: Seq<TaskModel>) -> int
    decreases tasks.len(),
{
    if tasks.len() == 0 {
        0
    } else {
        total_duration(tasks.drop_last()) + match tasks.last().result {
            Some(r) => r.duration_ms as int,
            None => 0,
        }
    }
}

/// How many rounds the tasks took together.
pub open spec fn total_iterations(tasks: Seq<TaskModel>) -> int
    decreases tasks.len(),
{
    if tasks.len() == 0 {
        0
    } else {
        total_iterations(tasks.drop_last()) + match tasks.last().result {
            Some(r) => r.usage.iterations as int,
            None => 0,
        }
    }
}

/// How many tools the tasks called together.
pub open spec fn total_tool_calls(tasks: Seq<TaskModel>) -> int
    decreases tasks.len(),
{
    if tasks.len() == 0 {
        0
    } else {
        total_tool_calls(tasks.drop_last()) + match tasks.last().result {
            Some(r) => r.usage.tool_calls as int,
            None => 0,
        }
    }
}

/// The sums are within the range of the counters.
pub open spec fn costs_fit(tasks: Seq<TaskModel>) -> bool {
    &&& total_duration(tasks) <= u64::MAX
    &&& total_iterations(tasks) <= u64::MAX
    &&& total_tool_calls(tasks) <= u64::MAX
}

/// The sums of fewer tasks are not larger.
proof fn costs_grow(tasks: Seq<TaskModel>, n: int)
    requires
        0 <= n <= tasks.len(),
    ensures
        0 <= total_duration(tasks.take(n)) <= total_duration(tasks),
        0 <= total_iterations(tasks.take(n)) <= total_iterations(tasks),
        0 <= total_tool_calls(tasks.take(n)) <= total_tool_calls(tasks),
    decreases tasks.len(),
{
    if n < tasks.len() {
        assert(tasks.drop_last().take(n) =~= tasks.take(n));
        costs_grow(tasks.drop_last(), n);
    } else {
        assert(tasks.take(n) =~= tasks);
        if n > 0 {
            costs_grow(tasks.drop_last(), n - 1);
            assert(tasks.drop_last().take(n - 1) =~= tasks.drop_last());
        }
    }
}

/// What the tasks have cost together; nothing where a sum is beyond the range of the
/// counters.
pub fn cost_of(tasks: &[BackgroundTask]) -> (r: Option<CostTotals>)
    ensures
        match r {
            Some(c) => c.duration_ms == total_duration(tasks.deep_view()) && c.iterations
                == total_iterations(tasks.deep_view()) && c.tool_calls == total_tool_calls(
                tasks.deep_view(),
            ),
            None => !costs_fit(tasks.deep_view()),
        },
{
    let ghost all = tasks.deep_view();
    let mut duration_ms: u64 = 0;
    let mut iterations: u64 = 0;
    let mut tool_calls: u64 = 0;
    let mut i: usize = 0;
    assert(all.take(0) =~= Seq::<TaskModel>::empty());
    while i < tasks.len()
        invariant
            i <= tasks@.len(),
            all == tasks.deep_view(),
            duration_ms == total_duration(all.take(i as int)),
            iterations == total_iterations(all.take(i as int)),
            tool_calls == total_tool_calls(all.take(i as int)),
        decreases tasks@.len() - i,
    {
        proof {
            assert(all.take(i + 1).drop_last() =~= all.take(i as int));
            assert(all.take(i + 1).last() == all[i as int]);
            costs_grow(all, i + 1);
        }
        if let Some(r) = &tasks[i].result {
            let d = duration_ms.checked_add(r.duration_ms);
            let n = iterations.checked_add(r.usage.iterations as u64);
            let c = tool_calls.checked_add(r.usage.tool_calls as u64);
            match (d, n, c) {
                (Some(d), Some(n), Some(c)) => {
                    duration_ms = d;
                    iterations = n;
                    tool_calls = c;
                },
                _ => {
                    return None;
                },
            }
        }
        i += 1;
    }
    assert(all.take(i as int) =~= all);
    Some(CostTotals { duration_ms, iterations, tool_calls })
}

/// What the tasks have cost together, as JSON.
pub open spec fn cost_json(tasks: Seq<TaskModel>) -> JsonModel {
    JsonModel::Object(
        seq![
            ("total_duration_ms"@, JsonModel::Int(total_duration(tasks))),
            ("total_iterations"@, JsonModel::Int(total_iterations(tasks))),
            ("total_tool_calls"@, JsonModel::Int(total_tool_calls(tasks))),
            ("task_count"@, JsonModel::Int(tasks.len() as int)),
        ],
    )
}

// ---------- all of it ----------

/// The tasks of a parent.
pub open spec fn tasks_of(tasks: Seq<TaskModel>, parent: u128) -> Seq<TaskModel> {
    tasks.filter(|t: TaskModel| t.parent_agent_id == parent)
}

/// The tasks whose results the parent may take.
pub open spec fn ready_tasks(tasks: Seq<TaskModel>, parent: u128) -> Seq<TaskModel> {
    tasks.filter(|t: TaskModel| registry::is_ready_for_parent(t, parent))
}

/// What a parent is told of its sub-agents: the agents, the tasks that are running and
/// those that have ended, the batches and the costs.
pub open spec fn listing(
    agents: Seq<HandleModel>,
    tasks: Seq<TaskModel>,
    parent: u128,
) -> JsonModel {
    let mine = tasks_of(tasks, parent);
    JsonModel::Object(
        seq![
            ("children"@, JsonModel::Array(children_json(agents, parent))),
            ("running"@, JsonModel::Array(all_running_json(mine))),
            (
                "completed"@,
                JsonModel::Array(
                    ready_tasks(tasks, parent).map_values(|t: TaskModel| ended_json(t)),
                ),
            ),
            (
                "batches"@,
                JsonModel::Array(batch_ids(mine).map_values(|b: u128| batch_json(mine, b))),
            ),
            ("cost_aggregation"@, cost_json(mine)),
        ],
    )
}

impl BackgroundTaskRegistry {
    /// What a parent is told of its sub-agents. The results that it is told of are taken
    /// from the registry; the tasks that are gone with that are handed back. Nothing is
    /// said or taken where the costs are beyond the range of the counters.
    pub fn list_sub_agents(&mut self, agents: &[AgentHandle], parent: u128) -> (r: Option<
        (Json, Vec<BackgroundTask>),
    >)
        requires
            old(self).wf(),
        ensures
            final(self).wf(),
            match r {
                Some((told, taken)) => costs_fit(tasks_of(old(self)@, parent)) && told@ == listing(agents.deep_view(), old(self)@, parent)
                    && taken.deep_view() == ready_tasks(old(self)@, parent) && final(self)@
                    == old(self)@.filter(
                    |t: TaskModel| !registry::is_ready_for_parent(t, parent),
                ),
                None => !costs_fit(tasks_of(old(self)@, parent)) && final(self)@ == old(self)@,
            },
    {
        let ghost tasks = self@;
        let mine = self.list_by_parent(parent);
        let cost = match cost_of(mine.as_slice()) {
            Some(c) => c,
            None => {
                return None;
            },
        };
        let children = list_children(agents, parent);
        let running = list_running_tasks(mine.as_slice());
        let taken = self.drain_by_parent(parent);
        let completed = list_ended(taken.as_slice());
        let batches = list_batches(mine.as_slice());
        let mut c: Vec<(String, Json)> = Vec::new();
        add_field(&mut c, "total_duration_ms", Json::count(cost.duration_ms));
        add_field(&mut c, "total_iterations", Json::count(cost.iterations));
        add_field(&mut c, "total_tool_calls", Json::count(cost.tool_calls));
        add_field(&mut c, "task_count", Json::count(mine.len() as u64));
        let costs = Json::object(c);
        assert(costs@->Object_0 =~= cost_json(mine.deep_view())->Object_0);
        let mut o: Vec<(String, Json)> = Vec::new();
        add_field(&mut o, "children", Json::array(children));
        add_field(&mut o, "running", Json::array(running));
        add_field(&mut o, "completed", Json::array(completed));
        add_field(&mut o, "batches", Json::array(batches));
        add_field(&mut o, "cost_aggregation", costs);
        let told = Json::object(o);
        assert(told@->Object_0 =~= listing(agents.deep_view(), tasks, parent)->Object_0);
        Some((told, taken))
    }
}

/// A listed agent is told by its identifier, its goal, its state and since when it is there.
pub proof fn an_agent_is_told(h: HandleModel)
    ensures
        handle_json(h).get("agent_id"@) == Some(JsonModel::Str(ids::id_text(h.agent_id))),
        handle_json(h).get("goal"@) == Some(JsonModel::Str(h.goal)),
        handle_json(h).get("state"@) == Some(JsonModel::Str(lifecycle::state_name(h.state))),
        handle_json(h).get("created_at"@) == Some(JsonModel::Str(h.created_at.text())),
{
    let o = handle_json(h)->Object_0;
    reveal_strlit("agent_id");
    reveal_strlit("goal");
    reveal_strlit("state");
    reveal_strlit("created_at");
    assert("agent_id"@.len() == 8);
    assert("goal"@.len() == 4);
    assert("state"@.len() == 5);
    assert("created_at"@.len() == 10);
    json::a_field_is_found(o, 0);
    json::a_field_is_found(o, 1);
    json::a_field_is_found(o, 2);
    json::a_field_is_found(o, 3);
}

/// An agent is shown all its children, and nobody else's.
pub proof fn all_children_are_listed(agents: Seq<HandleModel>, parent: u128, j: JsonModel)
    ensures
        children_json(agents, parent).contains(j) == exists|k: int|
            0 <= k < agents.len() && (#[trigger] agents[k]).parent_agent_id == Some(parent)
                && handle_json(agents[k]) == j,
    decreases agents.len(),
{
    if agents.len() > 0 {
        let front = agents.drop_last();
        let rest = children_json(front, parent);
        let all = children_json(agents, parent);
        all_children_are_listed(front, parent, j);
        if all.contains(j) {
            let i = choose|i: int| 0 <= i < all.len() && all[i] == j;
            if i < rest.len() {
                assert(rest[i] == j);
                let k = choose|k: int|
                    0 <= k < front.len() && (#[trigger] front[k]).parent_agent_id == Some(parent)
                        && handle_json(front[k]) == j;
                assert(agents[k] == front[k]);
            } else {
                assert(agents[agents.len() - 1].parent_agent_id == Some(parent));
            }
        }
        if exists|k: int|
            0 <= k < agents.len() && (#[trigger] agents[k]).parent_agent_id == Some(parent)
                && handle_json(agents[k]) == j {
            let k = choose|k: int|
                0 <= k < agents.len() && (#[trigger] agents[k]).parent_agent_id == Some(parent)
                    && handle_json(agents[k]) == j;
            if k < front.len() {
                assert(front[k] == agents[k]);
                let i = choose|i: int| 0 <= i < rest.len() && rest[i] == j;
                assert(all[i] == j);
            } else {
                assert(all[all.len() - 1] == j);
            }
        }
    }
}

/// All tasks that run are listed as such, and no other.
pub proof fn all_running_tasks_are_listed(tasks: Seq<TaskModel>, j: JsonModel)
    ensures
        all_running_json(tasks).contains(j) == exists|k: int|
            0 <= k < tasks.len() && (#[trigger] tasks[k]).status == BackgroundTaskStatus::Running
                && running_json(tasks[k]) == j,
    decreases tasks.len(),
{
    if tasks.len() > 0 {
        let front = tasks.drop_last();
        let rest = all_running_json(front);
        let all = all_running_json(tasks);
        all_running_tasks_are_listed(front, j);
        if all.contains(j) {
            let i = choose|i: int| 0 <= i < all.len() && all[i] == j;
            if i < rest.len() {
                assert(rest[i] == j);
                let k = choose|k: int|
                    0 <= k < front.len() && (#[trigger] front[k]).status
                        == BackgroundTaskStatus::Running && running_json(front[k]) == j;
                assert(tasks[k] == front[k]);
            } else {
                assert(tasks[tasks.len() - 1].status == BackgroundTaskStatus::Running);
            }
        }
        if exists|k: int|
            0 <= k < tasks.len() && (#[trigger] tasks[k]).status == BackgroundTaskStatus::Running
                && running_json(tasks[k]) == j {
            let k = choose|k: int|
                0 <= k < tasks.len() && (#[trigger] tasks[k]).status
                    == BackgroundTaskStatus::Running && running_json(tasks[k]) == j;
            if k < front.len() {
                assert(front[k] == tasks[k]);
                let i = choose|i: int| 0 <= i < rest.len() && rest[i] == j;
                assert(all[i] == j);
            } else {
                assert(all[all.len() - 1] == j);
            }
        }
    }
}

/// A task that runs is told by its identifiers and its goal, with the samples of its work in
/// order.
pub proof fn a_running_task_is_told(t: TaskModel, i: int)
    requires
        0 <= i < t.live_transcript.len(),
    ensures
        ({
            let j = running_json(t);
            let s = t.live_transcript[i];
            &&& j.get("agent_id"@) == Some(JsonModel::Str(ids::id_text(t.child_agent_id)))
            &&& j.get("delegation_id"@) == Some(JsonModel::Str(ids::id_text(t.delegation_id)))
            &&& j.get("goal"@) == Some(JsonModel::Str(t.goal))
            &&& j.get("status"@) == Some(JsonModel::Str("running"@))
            &&& j.get("live_transcript"@) matches Some(JsonModel::Array(a)) && a.len()
                == t.live_transcript.len() && a[i].get("iterations"@) == Some(
                JsonModel::Int(s.iterations as int),
            ) && a[i].get("api_call_count"@) == Some(JsonModel::Int(s.api_call_count as int)) && (
            s.current_tool matches Some(tool) ==> a[i].get("current_tool"@) == Some(
                JsonModel::Str(tool),
            ))
        }),
{
    let o = running_json(t)->Object_0;
    reveal_strlit("delegation_id");
    reveal_strlit("agent_id");
    reveal_strlit("goal");
    reveal_strlit("status");
    reveal_strlit("dispatched_at");
    reveal_strlit("live_transcript");
    assert("delegation_id"@.len() == 13);
    assert("agent_id"@.len() == 8);
    assert("goal"@.len() == 4);
    assert("status"@.len() == 6);
    assert("dispatched_at"@.len() == 13);
    assert("live_transcript"@.len() == 15);
    assert("delegation_id"@[1] == 'e');
    assert("dispatched_at"@[1] == 'i');
    json::a_field_is_found(o, 0);
    json::a_field_is_found(o, 1);
    json::a_field_is_found(o, 2);
    json::a_field_is_found(o, 3);
    json::a_field_is_found(o, 4);
    json::a_field_is_found(o, 5);
    let a = o[5].1->Array_0;
    assert(a[i] == snapshot_json(t.live_transcript[i]));
    let p = snapshot_json(t.live_transcript[i])->Object_0;
    reveal_strlit("timestamp");
    reveal_strlit("iterations");
    reveal_strlit("api_call_count");
    reveal_strlit("current_tool");
    reveal_strlit("last_activity_ts");
    assert("timestamp"@.len() == 9);
    assert("iterations"@.len() == 10);
    assert("api_call_count"@.len() == 14);
    assert("current_tool"@.len() == 12);
    assert("last_activity_ts"@.len() == 16);
    json::a_field_is_found(p, 0);
    json::a_field_is_found(p, 1);
    json::a_field_is_found(p, 2);
    json::a_field_is_found(p, 3);
    json::a_field_is_found(p, 4);
}

/// A task that has ended is told with its result, its identifiers, its goal and how it
/// ended; without a result it is told to have failed.
pub proof fn an_ended_task_is_told(t: TaskModel)
    ensures
        ({
            let j = ended_json(t);
            &&& j.get("agent_id"@) == Some(JsonModel::Str(ids::id_text(t.child_agent_id)))
            &&& j.get("delegation_id"@) == Some(JsonModel::Str(ids::id_text(t.delegation_id)))
            &&& j.get("goal"@) == Some(JsonModel::Str(t.goal))
            &&& t.status == BackgroundTaskStatus::Completed ==> j.get("status"@) == Some(
                JsonModel::Str("completed"@),
            )
            &&& t.status == BackgroundTaskStatus::Failed ==> j.get("status"@) == Some(
                JsonModel::Str("failed"@),
            )
            &&& t.status == BackgroundTaskStatus::Stale ==> j.get("status"@) == Some(
                JsonModel::Str("stale"@),
            )
            &&& t.result matches Some(r) ==> j.get("summary"@) == Some(JsonModel::Str(r.summary))
                && j.get("success"@) == Some(JsonModel::Bool(r.success))
            &&& t.result matches Some(r) ==> (r.error_message matches Some(e) ==> j.get(
                "error_message"@,
            ) == Some(JsonModel::Str(e)))
            &&& t.result is None ==> j.get("success"@) == Some(JsonModel::Bool(false))
        }),
{
    let start = outcome_fields(t);
    let v1 = str_json(ids::id_text(t.delegation_id));
    let v2 = str_json(ids::id_text(t.child_agent_id));
    let v3 = str_json(t.goal);
    let v4 = str_json(ended_name(t.status));
    let a = json::with_field(start, "delegation_id"@, v1);
    let b = json::with_field(a, "agent_id"@, v2);
    let c = json::with_field(b, "goal"@, v3);
    let d = json::with_field(c, "status"@, v4);
    reveal_strlit("delegation_id");
    reveal_strlit("agent_id");
    reveal_strlit("goal");
    reveal_strlit("status");
    reveal_strlit("completed_at");
    reveal_strlit("summary");
    reveal_strlit("success");
    reveal_strlit("error_message");
    assert("delegation_id"@.len() == 13);
    assert("agent_id"@.len() == 8);
    assert("goal"@.len() == 4);
    assert("status"@.len() == 6);
    assert("completed_at"@.len() == 12);
    assert("summary"@.len() == 7);
    assert("success"@.len() == 7);
    assert("error_message"@.len() == 13);
    assert("delegation_id"@[0] == 'd');
    assert("error_message"@[0] == 'e');
    assert("success"@[2] == 'c');
    assert("summary"@[2] == 'm');
    if let Some(r) = t.result {
        result::a_result_is_read_back(r);
    } else {
        json::a_field_is_found(start, 0);
    }
    json::a_set_field_is_read_back(start, "delegation_id"@, v1, "agent_id"@);
    json::a_set_field_is_read_back(start, "delegation_id"@, v1, "goal"@);
    json::a_set_field_is_read_back(start, "delegation_id"@, v1, "status"@);
    json::a_set_field_is_read_back(start, "delegation_id"@, v1, "summary"@);
    json::a_set_field_is_read_back(start, "delegation_id"@, v1, "success"@);
    json::a_set_field_is_read_back(start, "delegation_id"@, v1, "error_message"@);
    json::a_set_field_is_read_back(a, "agent_id"@, v2, "delegation_id"@);
    json::a_set_field_is_read_back(a, "agent_id"@, v2, "goal"@);
    json::a_set_field_is_read_back(a, "agent_id"@, v2, "status"@);
    json::a_set_field_is_read_back(a, "agent_id"@, v2, "summary"@);
    json::a_set_field_is_read_back(a, "agent_id"@, v2, "success"@);
    json::a_set_field_is_read_back(a, "agent_id"@, v2, "error_message"@);
    json::a_set_field_is_read_back(b, "goal"@, v3, "delegation_id"@);
    json::a_set_field_is_read_back(b, "goal"@, v3, "agent_id"@);
    json::a_set_field_is_read_back(b, "goal"@, v3, "status"@);
    json::a_set_field_is_read_back(b, "goal"@, v3, "summary"@);
    json::a_set_field_is_read_back(b, "goal"@, v3, "success"@);
    json::a_set_field_is_read_back(b, "goal"@, v3, "error_message"@);
    json::a_set_field_is_read_back(c, "status"@, v4, "delegation_id"@);
    json::a_set_field_is_read_back(c, "status"@, v4, "agent_id"@);
    json::a_set_field_is_read_back(c, "status"@, v4, "goal"@);
    json::a_set_field_is_read_back(c, "status"@, v4, "summary"@);
    json::a_set_field_is_read_back(c, "status"@, v4, "success"@);
    json::a_set_field_is_read_back(c, "status"@, v4, "error_message"@);
    if let Some(ms) = t.completed_at_ms {
        let v = clock::seconds_model(ms);
        json::a_set_field_is_read_back(d, "completed_at"@, v, "delegation_id"@);
        json::a_set_field_is_read_back(d, "completed_at"@, v, "agent_id"@);
        json::a_set_field_is_read_back(d, "completed_at"@, v, "goal"@);
        json::a_set_field_is_read_back(d, "completed_at"@, v, "status"@);
        json::a_set_field_is_read_back(d, "completed_at"@, v, "summary"@);
        json::a_set_field_is_read_back(d, "completed_at"@, v, "success"@);
        json::a_set_field_is_read_back(d, "completed_at"@, v, "error_message"@);
    }
}

/// What is counted of a batch grows by one with each of its tasks: all of them, those that
/// have ended, and those that have failed; tasks of other batches do not count.
pub proof fn batches_are_counted(tasks: Seq<TaskModel>, t: TaskModel, batch: u128)
    ensures
        t.delegation_id == batch ==> batch_size(tasks.push(t), batch) == batch_size(tasks, batch)
            + 1,
        t.delegation_id != batch ==> batch_size(tasks.push(t), batch) == batch_size(tasks, batch)
            && batch_ended(tasks.push(t), batch) == batch_ended(tasks, batch) && batch_failed(
            tasks.push(t),
            batch,
        ) == batch_failed(tasks, batch),
        t.delegation_id == batch ==> batch_ended(tasks.push(t), batch) == batch_ended(
            tasks,
            batch,
        ) + if t.status == BackgroundTaskStatus::Completed || t.status
            == BackgroundTaskStatus::Failed || t.status == BackgroundTaskStatus::Stale {
            1int
        } else {
            0
        },
        t.delegation_id == batch ==> batch_failed(tasks.push(t), batch) == batch_failed(
            tasks,
            batch,
        ) + if t.status == BackgroundTaskStatus::Failed || t.status
            == BackgroundTaskStatus::Stale {
            1int
        } else {
            0
        },
        batch_size(Seq::empty(), batch) == 0,
        batch_ended(Seq::empty(), batch) == 0,
        batch_failed(Seq::empty(), batch) == 0,
{
    assert(tasks.push(t).drop_last() =~= tasks);
}

/// A batch is told with its numbers and how far it is: whether all of it has ended, with a
/// failure or without, a part of it, or nothing yet.
pub proof fn a_batch_is_told(tasks: Seq<TaskModel>, batch: u128)
    ensures
        ({
            let j = batch_json(tasks, batch);
            let total = batch_size(tasks, batch);
            let ended = batch_ended(tasks, batch);
            let failed = batch_failed(tasks, batch);
            let status = j.get("status"@);
            &&& j.get("delegation_id"@) == Some(JsonModel::Str(ids::id_text(batch)))
            &&& j.get("total_tasks"@) == Some(JsonModel::Int(total))
            &&& j.get("completed_tasks"@) == Some(JsonModel::Int(ended))
            &&& j.get("failed_tasks"@) == Some(JsonModel::Int(failed))
            &&& ended == total && failed == 0 ==> status == Some(JsonModel::Str("all_completed"@))
            &&& ended == total && failed > 0 ==> status == Some(JsonModel::Str("partial_failed"@))
            &&& 0 < ended < total ==> status == Some(JsonModel::Str("partial_completed"@))
            &&& ended == 0 < total ==> status == Some(JsonModel::Str("running"@))
        }),
{
    let o = batch_json(tasks, batch)->Object_0;
    reveal_strlit("delegation_id");
    reveal_strlit("total_tasks");
    reveal_strlit("completed_tasks");
    reveal_strlit("failed_tasks");
    reveal_strlit("status");
    assert("delegation_id"@.len() == 13);
    assert("total_tasks"@.len() == 11);
    assert("completed_tasks"@.len() == 15);
    assert("failed_tasks"@.len() == 12);
    assert("status"@.len() == 6);
    json::a_field_is_found(o, 0);
    json::a_field_is_found(o, 1);
    json::a_field_is_found(o, 2);
    json::a_field_is_found(o, 3);
    json::a_field_is_found(o, 4);
}

/// What tasks have cost is the sum over their results.
pub proof fn costs_add_up(tasks: Seq<TaskModel>, t: TaskModel)
    ensures
        t.result matches Some(r) ==> total_duration(tasks.push(t)) == total_duration(tasks)
            + r.duration_ms && total_iterations(tasks.push(t)) == total_iterations(tasks)
            + r.usage.iterations && total_tool_calls(tasks.push(t)) == total_tool_calls(tasks)
            + r.usage.tool_calls,
        t.result is None ==> total_duration(tasks.push(t)) == total_duration(tasks)
            && total_iterations(tasks.push(t)) == total_iterations(tasks) && total_tool_calls(
            tasks.push(t),
        ) == total_tool_calls(tasks),
        total_duration(Seq::empty()) == 0,
        total_iterations(Seq::empty()) == 0,
        total_tool_calls(Seq::empty()) == 0,
        cost_json(tasks).get("total_duration_ms"@) == Some(JsonModel::Int(total_duration(tasks))),
        cost_json(tasks).get("total_iterations"@) == Some(
            JsonModel::Int(total_iterations(tasks)),
        ),
        cost_json(tasks).get("total_tool_calls"@) == Some(
            JsonModel::Int(total_tool_calls(tasks)),
        ),
        cost_json(tasks).get("task_count"@) == Some(JsonModel::Int(tasks.len() as int)),
{
    assert(tasks.push(t).drop_last() =~= tasks);
    let o = cost_json(tasks)->Object_0;
    reveal_strlit("total_duration_ms");
    reveal_strlit("total_iterations");
    reveal_strlit("total_tool_calls");
    reveal_strlit("task_count");
    assert("total_duration_ms"@.len() == 17);
    assert("total_iterations"@.len() == 16);
    assert("total_tool_calls"@.len() == 16);
    assert("task_count"@.len() == 10);
    assert("total_iterations"@[6] == 'i');
    assert("total_tool_calls"@[6] == 't');
    json::a_field_is_found(o, 0);
    json::a_field_is_found(o, 1);
    json::a_field_is_found(o, 2);
    json::a_field_is_found(o, 3);
}

/// A listing shows an agent its children and, of its own tasks, those that run, the results
/// that wait for it, each batch once, and what all of them have cost.
pub proof fn a_listing_is_of_ones_own(
    agents: Seq<HandleModel>,
    tasks: Seq<TaskModel>,
    parent: u128,
    t: TaskModel,
)
    requires
        tasks.contains(t),
    ensures
        ({
            let j = listing(agents, tasks, parent);
            &&& j.get("children"@) == Some(JsonModel::Array(children_json(agents, parent)))
            &&& j.get("running"@) matches Some(JsonModel::Array(a)) && (t.parent_agent_id
                == parent && t.status == BackgroundTaskStatus::Running ==> a.contains(
                running_json(t),
            ))
            &&& j.get("completed"@) matches Some(JsonModel::Array(a)) && (t.parent_agent_id
                == parent && t.delivery_state == types::DeliveryState::Pending && (t.status
                == BackgroundTaskStatus::Completed || t.status == BackgroundTaskStatus::Failed
                || t.status == BackgroundTaskStatus::Stale) ==> a.contains(ended_json(t)))
            &&& j.get("batches"@) matches Some(JsonModel::Array(a)) && (t.parent_agent_id
                == parent ==> a.contains(batch_json(tasks_of(tasks, parent), t.delegation_id)))
            &&& j.get("cost_aggregation"@) == Some(cost_json(tasks_of(tasks, parent)))
        }),
{
    let o = listing(agents, tasks, parent)->Object_0;
    reveal_strlit("children");
    reveal_strlit("running");
    reveal_strlit("completed");
    reveal_strlit("batches");
    reveal_strlit("cost_aggregation");
    assert("children"@.len() == 8);
    assert("running"@.len() == 7);
    assert("completed"@.len() == 9);
    assert("batches"@.len() == 7);
    assert("cost_aggregation"@.len() == 16);
    assert("batches"@[0] == 'b');
    assert("running"@[0] == 'r');
    json::a_field_is_found(o, 0);
    json::a_field_is_found(o, 1);
    json::a_field_is_found(o, 2);
    json::a_field_is_found(o, 3);
    json::a_field_is_found(o, 4);
    let own = |t: TaskModel| t.parent_agent_id == parent;
    let ready = |t: TaskModel| registry::is_ready_for_parent(t, parent);
    let mine = tasks_of(tasks, parent);
    if t.parent_agent_id == parent {
        assert(own(t));
        assert(mine.contains(t));
        let k = choose|k: int| 0 <= k < mine.len() && mine[k] == t;
        if t.status == BackgroundTaskStatus::Running {
            assert(mine[k].status == BackgroundTaskStatus::Running);
            all_running_tasks_are_listed(mine, running_json(t));
        }
        let ids = mine.map_values(|t: TaskModel| t.delegation_id);
        seqs::distinct_keeps(ids);
        assert(ids[k] == t.delegation_id);
        assert(ids.contains(t.delegation_id));
        let d = batch_ids(mine);
        assert(d.contains(t.delegation_id));
        let b = choose|b: int| 0 <= b < d.len() && d[b] == t.delegation_id;
        assert(o[3].1->Array_0[b] == batch_json(mine, t.delegation_id));
        if ready(t) {
            let r = ready_tasks(tasks, parent);
            assert(r.contains(t));
            let i = choose|i: int| 0 <= i < r.len() && r[i] == t;
            assert(o[2].1->Array_0[i] == ended_json(t));
        }
    }
}

} // verus!

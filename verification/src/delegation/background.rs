//! Starting tasks that are not waited for.
use vstd::prelude::*;

use crate::delegation::job::SubagentJob;
use crate::delegation::job::JobModel;
use crate::delegation::registry;
use crate::delegation::registry::BackgroundTaskRegistry;
use crate::delegation::types::{
    BackgroundTask, BackgroundTaskStatus, DeliveryState, TaskModel,
};
use crate::errors::LoomError;
use crate::ids;
use crate::ids::id_to_text;
use crate::json;
use crate::json::{add_field, Json, JsonModel};
use crate::llm::clone_opt;

verus! {

broadcast use {
    crate::seqs::group_views,
    crate::json::items_model_push,
    crate::json::fields_model_push,
};

/// The note of tasks that are running in the background.
pub const BACKGROUND_NOTE: &'static str =
    "sub-agents running in background; results will be injected on next chat turn or via action=list";

/// The task of a sub-agent that has just been launched: its result goes to the session
/// of the job, and it belongs to the process and to the tenant and user of the job.
pub open spec fn dispatched(
    job: JobModel,
    delegation_id: u128,
    agent_id: u128,
    now_ms: u64,
    instance: Seq<char>,
) -> TaskModel {
    TaskModel {
        delegation_id,
        child_agent_id: agent_id,
        goal: job.goal,
        status: BackgroundTaskStatus::Running,
        parent_agent_id: job.parent_agent_id,
        session_id: job.session_id,
        origin_session_id: job.session_id,
        dispatched_at_ms: now_ms,
        completed_at_ms: None,
        result: None,
        live_transcript: Seq::empty(),
        delivery_state: DeliveryState::Pending,
        delivery_attempts: 0,
        delivery_claim: None,
        delivery_claimed_at_ms: None,
        owner_instance_id: Some(instance),
        tenant_id: match job.scope {
            Some(s) => s.0,
            None => None,
        },
        user_id: match job.scope {
            Some(s) => s.1,
            None => None,
        },
    }
}

/// What the parent is told of a sub-agent that was launched, or could not be.
pub open spec fn launch_json(
    goal: Seq<char>,
    delegation_id: u128,
    outcome: Result<u128, LoomError>,
) -> JsonModel {
    match outcome {
        Ok(agent_id) => JsonModel::Object(
            seq![
                ("delegation_id"@, JsonModel::Str(ids::id_text(delegation_id))),
                ("agent_id"@, JsonModel::Str(ids::id_text(agent_id))),
                ("goal"@, JsonModel::Str(goal)),
                ("status"@, JsonModel::Str("running"@)),
            ],
        ),
        Err(e) => JsonModel::Object(
            seq![("goal"@, JsonModel::Str(goal)), ("error"@, JsonModel::Str(e.text()))],
        ),
    }
}

/// What the parent is told of a batch.
pub open spec fn batch_reply(delegation_id: u128, handles: Seq<JsonModel>) -> JsonModel {
    JsonModel::Object(
        seq![
            ("delegation_id"@, JsonModel::Str(ids::id_text(delegation_id))),
            ("handles"@, JsonModel::Array(handles)),
            ("mode"@, JsonModel::Str("background"@)),
            ("note"@, JsonModel::Str(BACKGROUND_NOTE@)),
        ],
    )
}

/// A batch of tasks that is being started. All its tasks share one identifier and one
/// moment.
#[derive(Debug, PartialEq, Eq)]
pub struct Batch {
    pub delegation_id: u128,
    pub dispatched_at_ms: u64,
    pub handles: Vec<Json>,
}

impl Batch {
    /// What the parent is told of the tasks so far.
    pub open spec fn told(self) -> Seq<JsonModel> {
        json::items_model(self.handles@)
    }

    /// A batch without tasks.
    pub fn new(delegation_id: u128, now_ms: u64) -> (r: Self)
        ensures
            r.delegation_id == delegation_id,
            r.dispatched_at_ms == now_ms,
            r.told() == Seq::<JsonModel>::empty(),
    {
        let r = Batch { delegation_id, dispatched_at_ms: now_ms, handles: Vec::new() };
        assert(r.told() =~= Seq::<JsonModel>::empty());
        r
    }

    /// Takes in that the sub-agent of a job was launched, or could not be. One that was
    /// launched is added to the registry and handed back to be stored.
    pub fn launched(
        &mut self,
        tasks: &mut BackgroundTaskRegistry,
        job: &SubagentJob,
        outcome: Result<u128, LoomError>,
        instance: &str,
    ) -> (r: Option<BackgroundTask>)
        requires
            old(tasks).wf(),
        ensures
            final(tasks).wf(),
            final(self).delegation_id == old(self).delegation_id,
            final(self).dispatched_at_ms == old(self).dispatched_at_ms,
            final(self).told() == old(self).told().push(
                launch_json(job.goal@, old(self).delegation_id, outcome),
            ),
            match outcome {
                Ok(agent_id) => {
                    let t = dispatched(
                        job@,
                        old(self).delegation_id,
                        agent_id,
                        old(self).dispatched_at_ms,
                        instance@,
                    );
                    r.deep_view() == Some(t) && final(tasks)@ == registry::registered(
                        old(tasks)@,
                        t,
                    )
                },
                Err(_) => r is None && final(tasks)@ == old(tasks)@,
            },
    {
        match outcome {
            Ok(agent_id) => {
                let (tenant_id, user_id) = match &job.scope {
                    Some(s) => (clone_opt(&s.tenant_id), clone_opt(&s.user_id)),
                    None => (None, None),
                };
                let task = BackgroundTask {
                    delegation_id: self.delegation_id,
                    child_agent_id: agent_id,
                    goal: job.goal.clone(),
                    status: BackgroundTaskStatus::Running,
                    parent_agent_id: job.parent_agent_id,
                    session_id: clone_opt(&job.session_id),
                    origin_session_id: clone_opt(&job.session_id),
                    dispatched_at_ms: self.dispatched_at_ms,
                    completed_at_ms: None,
                    result: None,
                    live_transcript: Vec::new(),
                    delivery_state: DeliveryState::Pending,
                    delivery_attempts: 0,
                    delivery_claim: None,
                    delivery_claimed_at_ms: None,
                    owner_instance_id: Some(String::from_str(instance)),
                    tenant_id,
                    user_id,
                };
                let copy = task.clone();
                tasks.register(task);
                let mut o: Vec<(String, Json)> = Vec::new();
                add_field(&mut o, "delegation_id", Json::Str(id_to_text(self.delegation_id)));
                add_field(&mut o, "agent_id", Json::Str(id_to_text(agent_id)));
                add_field(&mut o, "goal", Json::Str(job.goal.clone()));
                add_field(&mut o, "status", Json::string("running"));
                let told = Json::object(o);
                assert(told@->Object_0 =~= launch_json(
                    job.goal@,
                    self.delegation_id,
                    outcome,
                )->Object_0);
                self.handles.push(told);
                Some(copy)
            },
            Err(e) => {
                let mut o: Vec<(String, Json)> = Vec::new();
                add_field(&mut o, "goal", Json::Str(job.goal.clone()));
                add_field(&mut o, "error", Json::Str(e.to_text()));
                let told = Json::object(o);
                assert(told@->Object_0 =~= launch_json(
                    job.goal@,
                    self.delegation_id,
                    outcome,
                )->Object_0);
                self.handles.push(told);
                None
            },
        }
    }

    /// What the parent is told of the batch.
    pub fn reply(self) -> (r: Json)
        ensures
            r@ == batch_reply(self.delegation_id, self.told()),
    {
        let ghost told = self.told();
        let ghost id = self.delegation_id;
        let mut o: Vec<(String, Json)> = Vec::new();
        add_field(&mut o, "delegation_id", Json::Str(id_to_text(self.delegation_id)));
        add_field(&mut o, "handles", Json::array(self.handles));
        add_field(&mut o, "mode", Json::string("background"));
        add_field(&mut o, "note", Json::string(BACKGROUND_NOTE));
        let r = Json::object(o);
        assert(r@->Object_0 =~= batch_reply(id, told)->Object_0);
        r
    }
}

/// The result of a task that is started in the background goes to the session that asked
/// for it, and to no other.
pub proof fn results_go_back_to_the_session(
    job: JobModel,
    delegation_id: u128,
    agent_id: u128,
    now_ms: u64,
    instance: Seq<char>,
)
    ensures
        registry::target_session(dispatched(job, delegation_id, agent_id, now_ms, instance))
            == job.session_id,
{
}

/// A task that is sent into the background is about the goal of its job, runs, and has
/// neither a result nor a claim; it belongs to the parent, the session and the scope of the
/// job, and to the process that sent it.
pub proof fn a_task_begins_as_its_job_says(
    job: JobModel,
    delegation_id: u128,
    agent_id: u128,
    now_ms: u64,
    instance: Seq<char>,
)
    ensures
        ({
            let t = dispatched(job, delegation_id, agent_id, now_ms, instance);
            &&& t.goal == job.goal
            &&& t.child_agent_id == agent_id
            &&& t.delegation_id == delegation_id
            &&& t.parent_agent_id == job.parent_agent_id
            &&& t.session_id == job.session_id
            &&& t.status == BackgroundTaskStatus::Running
            &&& t.delivery_state == DeliveryState::Pending
            &&& t.delivery_attempts == 0
            &&& t.result is None
            &&& t.delivery_claim is None
            &&& t.completed_at_ms is None
            &&& t.dispatched_at_ms == now_ms
            &&& t.owner_instance_id == Some(instance)
            &&& job.scope matches Some(s) ==> t.tenant_id == s.0 && t.user_id == s.1
            &&& job.scope is None ==> t.tenant_id is None && t.user_id is None
        }),
{
}

/// The model is told of each task that runs by which identifier it is found again, and of
/// one that could not be started the reason; all of a batch are told together.
pub proof fn what_runs_in_the_background_is_told(
    goal: Seq<char>,
    delegation_id: u128,
    agent_id: u128,
    error: LoomError,
    handles: Seq<JsonModel>,
)
    ensures
        ({
            let ok = launch_json(goal, delegation_id, Ok(agent_id));
            let failed = launch_json(goal, delegation_id, Err(error));
            let reply = batch_reply(delegation_id, handles);
            &&& ok.get("agent_id"@) == Some(JsonModel::Str(ids::id_text(agent_id)))
            &&& ok.get("delegation_id"@) == Some(JsonModel::Str(ids::id_text(delegation_id)))
            &&& ok.get("goal"@) == Some(JsonModel::Str(goal))
            &&& ok.get("status"@) == Some(JsonModel::Str("running"@))
            &&& failed.get("goal"@) == Some(JsonModel::Str(goal))
            &&& failed.get("error"@) == Some(JsonModel::Str(error.text()))
            &&& reply.get("delegation_id"@) == Some(JsonModel::Str(ids::id_text(delegation_id)))
            &&& reply.get("handles"@) == Some(JsonModel::Array(handles))
            &&& reply.get("mode"@) == Some(JsonModel::Str("background"@))
        }),
{
    let ok = launch_json(goal, delegation_id, Ok(agent_id))->Object_0;
    let failed = launch_json(goal, delegation_id, Err(error))->Object_0;
    let reply = batch_reply(delegation_id, handles)->Object_0;
    reveal_strlit("delegation_id");
    reveal_strlit("agent_id");
    reveal_strlit("goal");
    reveal_strlit("status");
    reveal_strlit("error");
    reveal_strlit("handles");
    reveal_strlit("mode");
    assert("delegation_id"@.len() == 13);
    assert("agent_id"@.len() == 8);
    assert("goal"@.len() == 4);
    assert("status"@.len() == 6);
    assert("error"@.len() == 5);
    assert("handles"@.len() == 7);
    assert("mode"@.len() == 4);
    assert("goal"@[0] == 'g');
    assert("mode"@[0] == 'm');
    json::a_field_is_found(ok, 0);
    json::a_field_is_found(ok, 1);
    json::a_field_is_found(ok, 2);
    json::a_field_is_found(ok, 3);
    json::a_field_is_found(failed, 0);
    json::a_field_is_found(failed, 1);
    json::a_field_is_found(reply, 0);
    json::a_field_is_found(reply, 1);
    json::a_field_is_found(reply, 2);
}

} // verus!

//! The background tasks of a process, and the delivery of their results.
//!
//! The result of a task is delivered once: a session claims it, and either confirms
//! the delivery, which removes the task, or releases the claim, which lets it be
//! claimed again until the attempts are used up. A claim that is neither confirmed nor
//! released runs out.
use vstd::prelude::*;

use crate::delegation::types;
use crate::delegation::types::{
    ActivitySnapshot, BackgroundTask, BackgroundTaskStatus, DeliveryState, SnapshotModel,
    TaskModel, CLAIM_TTL_MS, MAX_DELIVERY_ATTEMPTS, TRANSCRIPT_LENGTH,
};
use crate::ids;
use crate::ids::{fresh_id, id_to_text};
use crate::isolation::ActivitySummary;
use crate::llm::clone_opt;
use crate::result;
use crate::result::{SubagentModel, SubagentResult};
use crate::text;
use crate::text::{decimal_text, same_text};

verus! {

broadcast use crate::seqs::group_views;

// ---------- tasks by themselves ----------

/// The session that the result of a task goes to.
pub open spec fn target_session(t: TaskModel) -> Option<Seq<char>> {
    if t.origin_session_id is Some {
        t.origin_session_id
    } else {
        t.session_id
    }
}

/// A task whose result the parent may take.
pub open spec fn is_ready_for_parent(t: TaskModel, parent: u128) -> bool {
    &&& t.parent_agent_id == parent
    &&& t.delivery_state == DeliveryState::Pending
    &&& is_ended(t.status)
}

/// A state in which a task of this process has ended.
pub open spec fn is_ended(status: BackgroundTaskStatus) -> bool {
    ||| status == BackgroundTaskStatus::Completed
    ||| status == BackgroundTaskStatus::Failed
    ||| status == BackgroundTaskStatus::Stale
}

/// A task whose result the session may take.
pub open spec fn is_ready_for_session(t: TaskModel, session: Seq<char>) -> bool {
    &&& target_session(t) == Some(session)
    &&& t.delivery_state == DeliveryState::Pending
    &&& types::is_final_status(t.status)
}

/// A claim has run out: it is older than it may be, or its age is not known.
pub open spec fn claim_expired(t: TaskModel, now_ms: u64) -> bool {
    match t.delivery_claimed_at_ms {
        Some(at) => now_ms - at > CLAIM_TTL_MS,
        None => true,
    }
}

/// A task whose result the session may claim at that moment.
pub open spec fn is_claimable(t: TaskModel, session: Seq<char>, now_ms: u64) -> bool {
    &&& target_session(t) == Some(session)
    &&& types::is_final_status(t.status)
    &&& {
        ||| t.delivery_state == DeliveryState::Pending
        ||| t.delivery_state == DeliveryState::Claimed && claim_expired(t, now_ms)
    }
}

/// The text of a claim: who, in which process, and a token.
pub open spec fn claim_text(consumer: Seq<char>, pid: u32, token: u128) -> Seq<char> {
    consumer + ":"@ + text::decimal(pid as nat) + ":"@ + ids::id_text(token)
}

/// The task once it is claimed.
pub open spec fn claimed(t: TaskModel, claim: Seq<char>, now_ms: u64) -> TaskModel {
    TaskModel {
        delivery_state: DeliveryState::Claimed,
        delivery_attempts: (t.delivery_attempts + 1) as u32,
        delivery_claim: Some(claim),
        delivery_claimed_at_ms: Some(now_ms),
        ..t
    }
}

/// The task once its claim is released.
pub open spec fn released(t: TaskModel) -> TaskModel {
    TaskModel {
        delivery_state: if t.delivery_attempts > MAX_DELIVERY_ATTEMPTS {
            DeliveryState::Dropped
        } else {
            DeliveryState::Pending
        },
        delivery_claim: None,
        delivery_claimed_at_ms: None,
        ..t
    }
}

/// A claim that is given matches the one of the task; where none is given, any does.
pub open spec fn claim_matches(t: TaskModel, claim: Option<Seq<char>>) -> bool {
    claim is None || t.delivery_claim == claim
}

/// The task once its result is being stored.
pub open spec fn begun(t: TaskModel) -> TaskModel {
    TaskModel { status: BackgroundTaskStatus::Finalizing, ..t }
}

/// The task once its result is there.
pub open spec fn finished(t: TaskModel, r: SubagentModel, now_ms: u64) -> TaskModel {
    TaskModel {
        status: if r.success {
            BackgroundTaskStatus::Completed
        } else {
            BackgroundTaskStatus::Failed
        },
        completed_at_ms: Some(now_ms),
        result: Some(r),
        delivery_state: DeliveryState::Pending,
        ..t
    }
}

/// The task once it has been stopped because it was stuck.
pub open spec fn stalled(t: TaskModel, error: Seq<char>, now_ms: u64) -> TaskModel {
    TaskModel {
        status: BackgroundTaskStatus::Stale,
        completed_at_ms: Some(now_ms),
        result: Some(result::failed(error, 0, 0)),
        delivery_state: DeliveryState::Pending,
        delivery_claim: None,
        delivery_claimed_at_ms: None,
        ..t
    }
}

/// The last samples of a transcript, with one more.
pub open spec fn extended(
    transcript: Seq<SnapshotModel>,
    s: SnapshotModel,
) -> Seq<SnapshotModel> {
    let all = transcript.push(s);
    if all.len() <= TRANSCRIPT_LENGTH {
        all
    } else {
        all.skip(all.len() - TRANSCRIPT_LENGTH)
    }
}

/// The task with one more sample.
pub open spec fn sampled(t: TaskModel, s: SnapshotModel) -> TaskModel {
    TaskModel { live_transcript: extended(t.live_transcript, s), ..t }
}

/// Who is to be told that a task has ended.
#[derive(Debug, PartialEq, Eq)]
pub struct CompletionNotification {
    pub session_id: String,
    pub child_agent_id: u128,
}

impl BackgroundTask {
    /// The session that the result goes to.
    pub fn target(&self) -> (r: Option<String>)
        ensures
            r.deep_view() == target_session(self@),
    {
        match &self.origin_session_id {
            Some(s) => Some(s.clone()),
            None => clone_opt(&self.session_id),
        }
    }

    /// Whether the result goes to the session.
    fn goes_to(&self, session_id: &str) -> (r: bool)
        ensures
            r == (target_session(self@) == Some(session_id@)),
    {
        match &self.origin_session_id {
            Some(s) => same_text(s.as_str(), session_id),
            None => match &self.session_id {
                Some(s) => same_text(s.as_str(), session_id),
                None => false,
            },
        }
    }

    /// Who is to be told that the task has ended: the session that its result goes to,
    /// where there is one.
    pub fn notification(&self) -> (r: Option<CompletionNotification>)
        ensures
            match r {
                Some(n) => target_session(self@) == Some(n.session_id@) && n.child_agent_id
                    == self.child_agent_id,
                None => target_session(self@) is None,
            },
    {
        match self.target() {
            Some(session_id) => Some(
                CompletionNotification { session_id, child_agent_id: self.child_agent_id },
            ),
            None => None,
        }
    }

    /// Whether the parent may take the result.
    fn ready_for_parent(&self, parent: u128) -> (r: bool)
        ensures
            r == is_ready_for_parent(self@, parent),
    {
        self.parent_agent_id == parent && self.delivery_state == DeliveryState::Pending && (
        self.status == BackgroundTaskStatus::Completed || self.status
            == BackgroundTaskStatus::Failed || self.status == BackgroundTaskStatus::Stale)
    }

    /// Whether the session may claim the result at that moment.
    fn claimable(&self, session_id: &str, now_ms: u64) -> (r: bool)
        ensures
            r == is_claimable(self@, session_id@, now_ms),
    {
        let expired = match self.delivery_claimed_at_ms {
            Some(at) => now_ms > at && now_ms - at > CLAIM_TTL_MS,
            None => true,
        };
        self.goes_to(session_id) && self.status.is_terminal() && (self.delivery_state
            == DeliveryState::Pending || (self.delivery_state == DeliveryState::Claimed && expired))
    }

    /// Claims the result.
    pub fn claim(&mut self, claim: String, now_ms: u64)
        requires
            old(self).delivery_attempts < u32::MAX,
        ensures
            final(self)@ == claimed(old(self)@, claim@, now_ms),
    {
        self.delivery_state = DeliveryState::Claimed;
        self.delivery_attempts = self.delivery_attempts + 1;
        self.delivery_claim = Some(claim);
        self.delivery_claimed_at_ms = Some(now_ms);
    }

    /// Whether the claim that is given is the one of the task.
    fn matches_claim(&self, claim: &Option<String>) -> (r: bool)
        ensures
            r == claim_matches(self@, claim.deep_view()),
    {
        match claim {
            None => true,
            Some(c) => match &self.delivery_claim {
                Some(d) => same_text(d.as_str(), c.as_str()),
                None => false,
            },
        }
    }
}

/// A claim with a fresh token.
fn new_claim(consumer: &str, pid: u32) -> (r: String)
    ensures
        exists|token: u128| r@ == claim_text(consumer@, pid, token),
{
    let token: u128 = fresh_id();
    let mut s = String::from_str(consumer);
    s.append(":");
    s.append(decimal_text(pid as u64).as_str());
    s.append(":");
    s.append(id_to_text(token).as_str());
    assert(s@ == claim_text(consumer@, pid, token));
    s
}

// ---------- all tasks ----------

/// No two tasks are of the same agent.
pub open spec fn agents_differ(tasks: Seq<TaskModel>) -> bool {
    forall|i: int, j: int|
        0 <= i < j < tasks.len() ==> (#[trigger] tasks[i]).child_agent_id != (
        #[trigger] tasks[j]).child_agent_id
}

/// The task of the agent stands at that position.
pub open spec fn task_at(tasks: Seq<TaskModel>, id: u128, i: int) -> bool {
    0 <= i < tasks.len() && tasks[i].child_agent_id == id
}

/// There is a task of the agent.
pub open spec fn has_task(tasks: Seq<TaskModel>, id: u128) -> bool {
    exists|i: int| task_at(tasks, id, i)
}

/// Where the task of the agent stands.
pub open spec fn task_position(tasks: Seq<TaskModel>, id: u128) -> int {
    choose|i: int| task_at(tasks, id, i)
}

/// The task of the agent.
pub open spec fn task_of(tasks: Seq<TaskModel>, id: u128) -> TaskModel {
    tasks[task_position(tasks, id)]
}

/// The tasks with the one of the agent replaced.
pub open spec fn with_task(tasks: Seq<TaskModel>, id: u128, t: TaskModel) -> Seq<TaskModel> {
    tasks.update(task_position(tasks, id), t)
}

/// The tasks without the one of the agent.
pub open spec fn without_task(tasks: Seq<TaskModel>, id: u128) -> Seq<TaskModel> {
    tasks.remove(task_position(tasks, id))
}

/// The tasks with one more; one of the same agent gives way.
pub open spec fn registered(tasks: Seq<TaskModel>, t: TaskModel) -> Seq<TaskModel> {
    if has_task(tasks, t.child_agent_id) {
        with_task(tasks, t.child_agent_id, t)
    } else {
        tasks.push(t)
    }
}

/// The background tasks of a process. No two are of the same agent.
#[derive(Debug)]
pub struct BackgroundTaskRegistry {
    tasks: Vec<BackgroundTask>,
}

impl View for BackgroundTaskRegistry {
    type V = Seq<TaskModel>;

    closed spec fn view(&self) -> Seq<TaskModel> {
        self.tasks.deep_view()
    }
}

/// A position at which the task of an agent stands is its position.
pub proof fn position_is_unique(tasks: Seq<TaskModel>, id: u128, i: int)
    requires
        agents_differ(tasks),
        task_at(tasks, id, i),
    ensures
        has_task(tasks, id),
        task_position(tasks, id) == i,
{
    let k = task_position(tasks, id);
    assert(task_at(tasks, id, k));
    if k < i {
        assert(tasks[k].child_agent_id != tasks[i].child_agent_id);
    } else if i < k {
        assert(tasks[i].child_agent_id != tasks[k].child_agent_id);
    }
}

/// Replacing a task by one of the same agent keeps the agents apart.
proof fn update_keeps_apart(tasks: Seq<TaskModel>, i: int, t: TaskModel)
    requires
        agents_differ(tasks),
        0 <= i < tasks.len(),
        t.child_agent_id == tasks[i].child_agent_id,
    ensures
        agents_differ(tasks.update(i, t)),
{
    let u = tasks.update(i, t);
    assert forall|a: int, b: int| 0 <= a < b < u.len() implies (#[trigger] u[a]).child_agent_id
        != (#[trigger] u[b]).child_agent_id by {
        assert(tasks[a].child_agent_id != tasks[b].child_agent_id);
    }
}

/// Leaving out a task keeps the agents apart, and leaves none of its agent.
pub proof fn remove_keeps_apart(tasks: Seq<TaskModel>, i: int)
    requires
        agents_differ(tasks),
        0 <= i < tasks.len(),
    ensures
        agents_differ(tasks.remove(i)),
        !has_task(tasks.remove(i), tasks[i].child_agent_id),
{
    let u = tasks.remove(i);
    assert forall|a: int, b: int| 0 <= a < b < u.len() implies (#[trigger] u[a]).child_agent_id
        != (#[trigger] u[b]).child_agent_id by {
        let x = if a < i { a } else { a + 1 };
        let y = if b < i { b } else { b + 1 };
        assert(u[a] == tasks[x]);
        assert(u[b] == tasks[y]);
        assert(tasks[x].child_agent_id != tasks[y].child_agent_id);
    }
    assert forall|j: int| !task_at(u, tasks[i].child_agent_id, j) by {
        if task_at(u, tasks[i].child_agent_id, j) {
            let k = if j < i { j } else { j + 1 };
            assert(tasks[k] == u[j]);
            if k < i {
                assert(tasks[k].child_agent_id != tasks[i].child_agent_id);
            } else {
                assert(tasks[i].child_agent_id != tasks[k].child_agent_id);
            }
        }
    }
}

/// Adding a task keeps the agents apart.
pub proof fn register_keeps_apart(tasks: Seq<TaskModel>, t: TaskModel)
    requires
        agents_differ(tasks),
    ensures
        agents_differ(registered(tasks, t)),
{
    if has_task(tasks, t.child_agent_id) {
        let i = task_position(tasks, t.child_agent_id);
        assert(task_at(tasks, t.child_agent_id, i));
        update_keeps_apart(tasks, i, t);
    } else {
        assert forall|j: int| 0 <= j < tasks.len() implies tasks[j].child_agent_id
            != t.child_agent_id by {
            assert(!task_at(tasks, t.child_agent_id, j));
        }
    }
}

/// Keeping some of the tasks keeps the agents apart.
proof fn filter_keeps_apart(tasks: Seq<TaskModel>, keep: spec_fn(TaskModel) -> bool)
    requires
        agents_differ(tasks),
    ensures
        agents_differ(tasks.filter(keep)),
    decreases tasks.len(),
{
    reveal(Seq::filter);
    if tasks.len() > 0 {
        let rest = tasks.drop_last();
        assert forall|i: int, j: int| 0 <= i < j < rest.len() implies (
        #[trigger] rest[i]).child_agent_id != (#[trigger] rest[j]).child_agent_id by {
            assert(tasks[i].child_agent_id != tasks[j].child_agent_id);
        }
        filter_keeps_apart(rest, keep);
        let f = rest.filter(keep);
        if keep(tasks.last()) {
            assert forall|i: int| 0 <= i < f.len() implies (#[trigger] f[i]).child_agent_id
                != tasks.last().child_agent_id by {
                rest.lemma_filter_contains_rev(keep, f[i]);
                let k = choose|k: int| 0 <= k < rest.len() && rest[k] == f[i];
                assert(tasks[k].child_agent_id != tasks[tasks.len() - 1].child_agent_id);
            }
        }
    }
}

impl BackgroundTaskRegistry {
    /// No two tasks are of the same agent.
    pub open spec fn wf(self) -> bool {
        agents_differ(self@)
    }

    /// A registry without tasks.
    pub fn new() -> (r: Self)
        ensures
            r.wf(),
            r@ == Seq::<TaskModel>::empty(),
    {
        BackgroundTaskRegistry { tasks: Vec::new() }
    }

    /// Where the task of the agent stands.
    fn find(&self, id: u128) -> (r: Option<usize>)
        requires
            self.wf(),
        ensures
            match r {
                Some(i) => has_task(self@, id) && task_position(self@, id) == i && i
                    < self.tasks@.len() && self.tasks@[i as int].child_agent_id == id,
                None => !has_task(self@, id),
            },
    {
        let mut i: usize = 0;
        while i < self.tasks.len()
            invariant
                self.wf(),
                i <= self.tasks@.len(),
                forall|j: int| 0 <= j < i ==> !task_at(self@, id, j),
            decreases self.tasks@.len() - i,
        {
            if self.tasks[i].child_agent_id == id {
                proof {
                    position_is_unique(self@, id, i as int);
                }
                return Some(i);
            }
            i += 1;
        }
        None
    }

    /// Adds a task; one of the same agent gives way.
    pub fn register(&mut self, task: BackgroundTask)
        requires
            old(self).wf(),
        ensures
            final(self).wf(),
            final(self)@ == registered(old(self)@, task@),
    {
        proof {
            register_keeps_apart(self@, task@);
        }
        match self.find(task.child_agent_id) {
            Some(i) => {
                self.tasks.set(i, task);
            },
            None => {
                self.tasks.push(task);
            },
        }
    }

    /// Begins to end a task that is running; the task as it is to be stored.
    pub fn begin_complete(&mut self, id: u128) -> (r: Option<BackgroundTask>)
        requires
            old(self).wf(),
        ensures
            final(self).wf(),
            if has_task(old(self)@, id) && task_of(old(self)@, id).status
                == BackgroundTaskStatus::Running {
                let t = begun(task_of(old(self)@, id));
                r.deep_view() == Some(t) && final(self)@ == with_task(old(self)@, id, t)
            } else {
                r is None && final(self)@ == old(self)@
            },
    {
        match self.find(id) {
            None => None,
            Some(i) => {
                if self.tasks[i].status != BackgroundTaskStatus::Running {
                    return None;
                }
                let ghost before = self@;
                let mut task = self.tasks[i].clone();
                task.status = BackgroundTaskStatus::Finalizing;
                let copy = task.clone();
                proof {
                    update_keeps_apart(before, i as int, task@);
                }
                self.tasks.set(i, task);
                Some(copy)
            },
        }
    }

    /// Ends a task whose result is being stored; the task as it is to be stored.
    pub fn finish_complete(
        &mut self,
        id: u128,
        result: SubagentResult,
        now_ms: u64,
    ) -> (r: Option<BackgroundTask>)
        requires
            old(self).wf(),
        ensures
            final(self).wf(),
            if has_task(old(self)@, id) && task_of(old(self)@, id).status
                == BackgroundTaskStatus::Finalizing {
                let t = finished(task_of(old(self)@, id), result@, now_ms);
                r.deep_view() == Some(t) && final(self)@ == with_task(old(self)@, id, t)
            } else {
                r is None && final(self)@ == old(self)@
            },
    {
        match self.find(id) {
            None => None,
            Some(i) => {
                if self.tasks[i].status != BackgroundTaskStatus::Finalizing {
                    return None;
                }
                let ghost before = self@;
                let mut task = self.tasks[i].clone();
                task.status = if result.success {
                    BackgroundTaskStatus::Completed
                } else {
                    BackgroundTaskStatus::Failed
                };
                task.completed_at_ms = Some(now_ms);
                task.result = Some(result);
                task.delivery_state = DeliveryState::Pending;
                let copy = task.clone();
                proof {
                    update_keeps_apart(before, i as int, task@);
                }
                self.tasks.set(i, task);
                Some(copy)
            },
        }
    }

    /// Marks a running task as stuck; the task as it is to be stored.
    pub fn mark_stale(
        &mut self,
        id: u128,
        error_msg: &str,
        now_ms: u64,
    ) -> (r: Option<BackgroundTask>)
        requires
            old(self).wf(),
        ensures
            final(self).wf(),
            if has_task(old(self)@, id) && task_of(old(self)@, id).status
                == BackgroundTaskStatus::Running {
                let t = stalled(task_of(old(self)@, id), error_msg@, now_ms);
                r.deep_view() == Some(t) && final(self)@ == with_task(old(self)@, id, t)
            } else {
                r is None && final(self)@ == old(self)@
            },
    {
        match self.find(id) {
            None => None,
            Some(i) => {
                if self.tasks[i].status != BackgroundTaskStatus::Running {
                    return None;
                }
                let ghost before = self@;
                let mut task = self.tasks[i].clone();
                task.status = BackgroundTaskStatus::Stale;
                task.completed_at_ms = Some(now_ms);
                task.result = Some(SubagentResult::from_error(error_msg, 0, 0));
                task.delivery_state = DeliveryState::Pending;
                task.delivery_claim = None;
                task.delivery_claimed_at_ms = None;
                let copy = task.clone();
                proof {
                    update_keeps_apart(before, i as int, task@);
                }
                self.tasks.set(i, task);
                Some(copy)
            },
        }
    }

    /// Adds a sample to the transcript of a task, of which the last are kept.
    pub fn push_activity_snapshot(&mut self, id: u128, summary: &ActivitySummary, now_ms: u64)
        requires
            old(self).wf(),
        ensures
            final(self).wf(),
            final(self)@ == if has_task(old(self)@, id) {
                with_task(
                    old(self)@,
                    id,
                    sampled(task_of(old(self)@, id), types::sample(*summary, now_ms)),
                )
            } else {
                old(self)@
            },
    {
        if let Some(i) = self.find(id) {
            let ghost before = self@;
            let mut task = self.tasks[i].clone();
            let ghost t = task@;
            let mut log: Vec<ActivitySnapshot> = Vec::new();
            let n: usize = task.live_transcript.len();
            let skip: usize = if n >= TRANSCRIPT_LENGTH {
                n - (TRANSCRIPT_LENGTH - 1)
            } else {
                0
            };
            let mut k: usize = skip;
            while k < n
                invariant
                    skip <= k <= n,
                    n == task.live_transcript@.len(),
                    log@.len() == k - skip,
                    forall|j: int|
                        0 <= j < k - skip ==> (#[trigger] log@[j])@
                            == task.live_transcript@[skip + j]@,
                decreases n - k,
            {
                log.push(task.live_transcript[k].clone());
                k += 1;
            }
            log.push(ActivitySnapshot::from_summary(summary, now_ms));
            assert(log.deep_view() =~= extended(
                t.live_transcript,
                types::sample(*summary, now_ms),
            ));
            task.live_transcript = log;
            proof {
                update_keeps_apart(before, i as int, task@);
            }
            self.tasks.set(i, task);
        }
    }

    /// Takes the results that the parent may take; their tasks are removed.
    pub fn drain_by_parent(&mut self, parent_agent_id: u128) -> (r: Vec<BackgroundTask>)
        requires
            old(self).wf(),
        ensures
            final(self).wf(),
            r.deep_view() == old(self)@.filter(
                |t: TaskModel| is_ready_for_parent(t, parent_agent_id),
            ),
            final(self)@ == old(self)@.filter(
                |t: TaskModel| !is_ready_for_parent(t, parent_agent_id),
            ),
    {
        let ghost all = self@;
        let ghost takes = |t: TaskModel| is_ready_for_parent(t, parent_agent_id);
        let ghost keeps = |t: TaskModel| !is_ready_for_parent(t, parent_agent_id);
        let mut taken: Vec<BackgroundTask> = Vec::new();
        let mut kept: Vec<BackgroundTask> = Vec::new();
        let mut i: usize = 0;
        assert(all.take(0).filter(takes) =~= Seq::<TaskModel>::empty());
        assert(all.take(0).filter(keeps) =~= Seq::<TaskModel>::empty());
        while i < self.tasks.len()
            invariant
                i <= self.tasks@.len(),
                all == self@,
                all.len() == self.tasks@.len(),
                takes == (|t: TaskModel| is_ready_for_parent(t, parent_agent_id)),
                keeps == (|t: TaskModel| !is_ready_for_parent(t, parent_agent_id)),
                taken.deep_view() == all.take(i as int).filter(takes),
                kept.deep_view() == all.take(i as int).filter(keeps),
            decreases self.tasks@.len() - i,
        {
            proof {
                reveal(Seq::filter);
                assert(all.take(i + 1).drop_last() =~= all.take(i as int));
                assert(all.take(i + 1).last() == all[i as int]);
            }
            if self.tasks[i].ready_for_parent(parent_agent_id) {
                taken.push(self.tasks[i].clone());
            } else {
                kept.push(self.tasks[i].clone());
            }
            i += 1;
        }
        proof {
            assert(all.take(i as int) =~= all);
            filter_keeps_apart(all, keeps);
        }
        self.tasks = kept;
        taken
    }

    /// Takes the results that the session may take; their tasks are removed.
    pub fn drain_by_session(&mut self, session_id: &str) -> (r: Vec<BackgroundTask>)
        requires
            old(self).wf(),
        ensures
            final(self).wf(),
            r.deep_view() == old(self)@.filter(
                |t: TaskModel| is_ready_for_session(t, session_id@),
            ),
            final(self)@ == old(self)@.filter(
                |t: TaskModel| !is_ready_for_session(t, session_id@),
            ),
    {
        let ghost all = self@;
        let ghost session = session_id@;
        let ghost takes = |t: TaskModel| is_ready_for_session(t, session);
        let ghost keeps = |t: TaskModel| !is_ready_for_session(t, session);
        let mut taken: Vec<BackgroundTask> = Vec::new();
        let mut kept: Vec<BackgroundTask> = Vec::new();
        let mut i: usize = 0;
        assert(all.take(0).filter(takes) =~= Seq::<TaskModel>::empty());
        assert(all.take(0).filter(keeps) =~= Seq::<TaskModel>::empty());
        while i < self.tasks.len()
            invariant
                i <= self.tasks@.len(),
                all == self@,
                all.len() == self.tasks@.len(),
                session == session_id@,
                takes == (|t: TaskModel| is_ready_for_session(t, session)),
                keeps == (|t: TaskModel| !is_ready_for_session(t, session)),
                taken.deep_view() == all.take(i as int).filter(takes),
                kept.deep_view() == all.take(i as int).filter(keeps),
            decreases self.tasks@.len() - i,
        {
            proof {
                reveal(Seq::filter);
                assert(all.take(i + 1).drop_last() =~= all.take(i as int));
                assert(all.take(i + 1).last() == all[i as int]);
            }
            if self.tasks[i].goes_to(session_id) && self.tasks[i].delivery_state
                == DeliveryState::Pending && self.tasks[i].status.is_terminal() {
                taken.push(self.tasks[i].clone());
            } else {
                kept.push(self.tasks[i].clone());
            }
            i += 1;
        }
        proof {
            assert(all.take(i as int) =~= all);
            filter_keeps_apart(all, keeps);
        }
        self.tasks = kept;
        taken
    }

    /// Whether every task may be claimed once more.
    pub fn attempts_fit(&self) -> (r: bool)
        ensures
            r == forall|i: int|
                0 <= i < self@.len() ==> (#[trigger] self@[i]).delivery_attempts < u32::MAX,
    {
        let mut i: usize = 0;
        while i < self.tasks.len()
            invariant
                i <= self.tasks@.len(),
                forall|k: int|
                    0 <= k < i ==> (#[trigger] self@[k]).delivery_attempts < u32::MAX,
            decreases self.tasks@.len() - i,
        {
            if self.tasks[i].delivery_attempts == u32::MAX {
                assert(self@[i as int].delivery_attempts == u32::MAX);
                return false;
            }
            i += 1;
        }
        true
    }

    /// Claims the results that the session may claim at that moment, each with a token
    /// of its own; the tasks as they are then.
    pub fn claim_completed(
        &mut self,
        session_id: &str,
        consumer_id: &str,
        pid: u32,
        now_ms: u64,
    ) -> (r: Vec<BackgroundTask>)
        requires
            old(self).wf(),
            forall|i: int|
                0 <= i < old(self)@.len() ==> (#[trigger] old(self)@[i]).delivery_attempts
                    < u32::MAX,
        ensures
            final(self).wf(),
            final(self)@.len() == old(self)@.len(),
            forall|i: int|
                0 <= i < old(self)@.len() ==> is_claim_step(
                    old(self)@[i],
                    #[trigger] final(self)@[i],
                    session_id@,
                    consumer_id@,
                    pid,
                    now_ms,
                ),
            r.deep_view() == picked(old(self)@, final(self)@, session_id@, now_ms),
    {
        let ghost before = self@;
        let ghost session = session_id@;
        let mut out: Vec<BackgroundTask> = Vec::new();
        let mut i: usize = 0;
        while i < self.tasks.len()
            invariant
                i <= self.tasks@.len(),
                self@.len() == before.len(),
                self.tasks@.len() == before.len(),
                session == session_id@,
                agents_differ(self@),
                forall|j: int|
                    0 <= j < before.len() ==> (#[trigger] before[j]).delivery_attempts < u32::MAX,
                forall|j: int|
                    0 <= j < i ==> is_claim_step(
                        before[j],
                        #[trigger] self@[j],
                        session,
                        consumer_id@,
                        pid,
                        now_ms,
                    ),
                forall|j: int| i <= j < before.len() ==> #[trigger] self@[j] == before[j],
                out.deep_view() == picked(
                    before.take(i as int),
                    self@.take(i as int),
                    session,
                    now_ms,
                ),
            decreases self.tasks@.len() - i,
        {
            assert(self@[i as int] == before[i as int]);
            let ghost was = self@;
            if self.tasks[i].claimable(session_id, now_ms) {
                let claim = new_claim(consumer_id, pid);
                let mut task = self.tasks[i].clone();
                task.claim(claim, now_ms);
                let copy = task.clone();
                proof {
                    update_keeps_apart(self@, i as int, task@);
                }
                self.tasks.set(i, task);
                out.push(copy);
                assert(self@ == was.update(i as int, task@));
            }
            i += 1;
            proof {
                assert(before.take(i as int).drop_last() =~= before.take(i - 1));
                assert(self@.take(i as int).drop_last() =~= was.take(i - 1));
                assert(before.take(i as int).last() == before[i - 1]);
                assert(self@.take(i as int).last() == self@[i - 1]);
            }
        }
        proof {
            assert(before.take(i as int) =~= before);
            assert(self@.take(i as int) =~= self@);
        }
        out
    }

    /// Confirms deliveries: removes the tasks of the agents whose claims match; says
    /// which were removed. Agents and claims go in pairs.
    pub fn complete_delivery(
        &mut self,
        child_agent_ids: &[u128],
        claim_ids: &[Option<String>],
    ) -> (r: Vec<u128>)
        requires
            old(self).wf(),
        ensures
            final(self).wf(),
            ({
                let n = pair_count(child_agent_ids@.len(), claim_ids@.len());
                let claims = claim_ids.deep_view();
                &&& final(self)@ == after_completing(old(self)@, child_agent_ids@, claims, n)
                &&& r@ == completed_ids(old(self)@, child_agent_ids@, claims, n)
            }),
    {
        let ghost before = self@;
        let ghost claims = claim_ids.deep_view();
        let mut removed: Vec<u128> = Vec::new();
        let mut i: usize = 0;
        while i < child_agent_ids.len() && i < claim_ids.len()
            invariant
                i <= child_agent_ids@.len(),
                i <= claim_ids@.len(),
                claims == claim_ids.deep_view(),
                self.wf(),
                self@ == after_completing(before, child_agent_ids@, claims, i as int),
                removed@ == completed_ids(before, child_agent_ids@, claims, i as int),
            decreases child_agent_ids@.len() - i,
        {
            let id: u128 = child_agent_ids[i];
            if let Some(k) = self.find(id) {
                if self.tasks[k].matches_claim(&claim_ids[i]) {
                    proof {
                        remove_keeps_apart(self@, k as int);
                    }
                    let ghost was = self@;
                    self.tasks.remove(k);
                    assert(self@ =~= was.remove(k as int));
                    removed.push(id);
                }
            }
            i += 1;
        }
        removed
    }

    /// Releases claims: the tasks of the agents whose claims match may be claimed again,
    /// or are given up where the attempts exceed the limit; says which were given up. Agents
    /// and claims go in pairs.
    pub fn release_claim(
        &mut self,
        child_agent_ids: &[u128],
        claim_ids: &[Option<String>],
    ) -> (r: Vec<u128>)
        requires
            old(self).wf(),
        ensures
            final(self).wf(),
            ({
                let n = pair_count(child_agent_ids@.len(), claim_ids@.len());
                let claims = claim_ids.deep_view();
                &&& final(self)@ == after_releasing(old(self)@, child_agent_ids@, claims, n)
                &&& r@ == dropped_ids(old(self)@, child_agent_ids@, claims, n)
            }),
    {
        let ghost before = self@;
        let ghost claims = claim_ids.deep_view();
        let mut dropped: Vec<u128> = Vec::new();
        let mut i: usize = 0;
        while i < child_agent_ids.len() && i < claim_ids.len()
            invariant
                i <= child_agent_ids@.len(),
                i <= claim_ids@.len(),
                claims == claim_ids.deep_view(),
                self.wf(),
                self@ == after_releasing(before, child_agent_ids@, claims, i as int),
                dropped@ == dropped_ids(before, child_agent_ids@, claims, i as int),
            decreases child_agent_ids@.len() - i,
        {
            let id: u128 = child_agent_ids[i];
            if let Some(k) = self.find(id) {
                if self.tasks[k].matches_claim(&claim_ids[i]) {
                    let mut task = self.tasks[k].clone();
                    task.delivery_claim = None;
                    task.delivery_claimed_at_ms = None;
                    if task.delivery_attempts > MAX_DELIVERY_ATTEMPTS {
                        task.delivery_state = DeliveryState::Dropped;
                        dropped.push(id);
                    } else {
                        task.delivery_state = DeliveryState::Pending;
                    }
                    proof {
                        update_keeps_apart(self@, k as int, task@);
                    }
                    self.tasks.set(k, task);
                }
            }
            i += 1;
        }
        dropped
    }

    /// The tasks of a parent.
    pub fn list_by_parent(&self, parent_agent_id: u128) -> (r: Vec<BackgroundTask>)
        ensures
            r.deep_view() == self@.filter(
                |t: TaskModel| t.parent_agent_id == parent_agent_id,
            ),
    {
        let ghost all = self@;
        let ghost takes = |t: TaskModel| t.parent_agent_id == parent_agent_id;
        let mut out: Vec<BackgroundTask> = Vec::new();
        let mut i: usize = 0;
        assert(all.take(0).filter(takes) =~= Seq::<TaskModel>::empty());
        while i < self.tasks.len()
            invariant
                i <= self.tasks@.len(),
                all == self@,
                all.len() == self.tasks@.len(),
                takes == (|t: TaskModel| t.parent_agent_id == parent_agent_id),
                out.deep_view() == all.take(i as int).filter(takes),
            decreases self.tasks@.len() - i,
        {
            proof {
                reveal(Seq::filter);
                assert(all.take(i + 1).drop_last() =~= all.take(i as int));
                assert(all.take(i + 1).last() == all[i as int]);
            }
            if self.tasks[i].parent_agent_id == parent_agent_id {
                out.push(self.tasks[i].clone());
            }
            i += 1;
        }
        assert(all.take(i as int) =~= all);
        out
    }

    /// The tasks that are running.
    pub fn list_running(&self) -> (r: Vec<BackgroundTask>)
        ensures
            r.deep_view() == self@.filter(
                |t: TaskModel| t.status == BackgroundTaskStatus::Running,
            ),
    {
        let ghost all = self@;
        let ghost takes = |t: TaskModel| t.status == BackgroundTaskStatus::Running;
        let mut out: Vec<BackgroundTask> = Vec::new();
        let mut i: usize = 0;
        assert(all.take(0).filter(takes) =~= Seq::<TaskModel>::empty());
        while i < self.tasks.len()
            invariant
                i <= self.tasks@.len(),
                all == self@,
                all.len() == self.tasks@.len(),
                takes == (|t: TaskModel| t.status == BackgroundTaskStatus::Running),
                out.deep_view() == all.take(i as int).filter(takes),
            decreases self.tasks@.len() - i,
        {
            proof {
                reveal(Seq::filter);
                assert(all.take(i + 1).drop_last() =~= all.take(i as int));
                assert(all.take(i + 1).last() == all[i as int]);
            }
            if self.tasks[i].status == BackgroundTaskStatus::Running {
                out.push(self.tasks[i].clone());
            }
            i += 1;
        }
        assert(all.take(i as int) =~= all);
        out
    }

    /// Whether there is a result that the parent may take.
    pub fn has_for_parent(&self, parent_agent_id: u128) -> (r: bool)
        ensures
            r == exists|i: int|
                0 <= i < self@.len() && is_ready_for_parent(
                    #[trigger] self@[i],
                    parent_agent_id,
                ),
    {
        let mut i: usize = 0;
        while i < self.tasks.len()
            invariant
                i <= self.tasks@.len(),
                forall|j: int|
                    0 <= j < i ==> !is_ready_for_parent(#[trigger] self@[j], parent_agent_id),
            decreases self.tasks@.len() - i,
        {
            if self.tasks[i].ready_for_parent(parent_agent_id) {
                assert(is_ready_for_parent(self@[i as int], parent_agent_id));
                return true;
            }
            i += 1;
        }
        false
    }
}

/// What claiming does to one task: it is claimed with some token where it may be, and
/// left alone where not.
pub open spec fn is_claim_step(
    before: TaskModel,
    after: TaskModel,
    session: Seq<char>,
    consumer: Seq<char>,
    pid: u32,
    now_ms: u64,
) -> bool {
    if is_claimable(before, session, now_ms) {
        exists|token: u128|
            after == claimed(before, #[trigger] claim_text(consumer, pid, token), now_ms)
    } else {
        after == before
    }
}

/// The tasks after, of those that could be claimed before.
pub open spec fn picked(
    before: Seq<TaskModel>,
    after: Seq<TaskModel>,
    session: Seq<char>,
    now_ms: u64,
) -> Seq<TaskModel>
    decreases before.len(),
{
    if before.len() == 0 || after.len() != before.len() {
        Seq::empty()
    } else {
        let rest = picked(before.drop_last(), after.drop_last(), session, now_ms);
        if is_claimable(before.last(), session, now_ms) {
            rest.push(after.last())
        } else {
            rest
        }
    }
}

/// How many pairs two lists make.
pub open spec fn pair_count(a: nat, b: nat) -> int {
    if a <= b {
        a as int
    } else {
        b as int
    }
}

/// There is a task of the agent whose claim matches.
pub open spec fn is_held(tasks: Seq<TaskModel>, id: u128, claim: Option<Seq<char>>) -> bool {
    has_task(tasks, id) && claim_matches(task_of(tasks, id), claim)
}

/// The tasks once the first `n` deliveries are confirmed, one after the other.
pub open spec fn after_completing(
    tasks: Seq<TaskModel>,
    ids: Seq<u128>,
    claims: Seq<Option<Seq<char>>>,
    n: int,
) -> Seq<TaskModel>
    decreases n,
{
    if n <= 0 {
        tasks
    } else {
        let now = after_completing(tasks, ids, claims, n - 1);
        if is_held(now, ids[n - 1], claims[n - 1]) {
            without_task(now, ids[n - 1])
        } else {
            now
        }
    }
}

/// The agents whose tasks the first `n` confirmations remove.
pub open spec fn completed_ids(
    tasks: Seq<TaskModel>,
    ids: Seq<u128>,
    claims: Seq<Option<Seq<char>>>,
    n: int,
) -> Seq<u128>
    decreases n,
{
    if n <= 0 {
        Seq::empty()
    } else {
        let now = after_completing(tasks, ids, claims, n - 1);
        let sofar = completed_ids(tasks, ids, claims, n - 1);
        if is_held(now, ids[n - 1], claims[n - 1]) {
            sofar.push(ids[n - 1])
        } else {
            sofar
        }
    }
}

/// The tasks once the first `n` claims are released, one after the other.
pub open spec fn after_releasing(
    tasks: Seq<TaskModel>,
    ids: Seq<u128>,
    claims: Seq<Option<Seq<char>>>,
    n: int,
) -> Seq<TaskModel>
    decreases n,
{
    if n <= 0 {
        tasks
    } else {
        let now = after_releasing(tasks, ids, claims, n - 1);
        if is_held(now, ids[n - 1], claims[n - 1]) {
            with_task(now, ids[n - 1], released(task_of(now, ids[n - 1])))
        } else {
            now
        }
    }
}

/// The agents whose tasks the first `n` releases give up.
pub open spec fn dropped_ids(
    tasks: Seq<TaskModel>,
    ids: Seq<u128>,
    claims: Seq<Option<Seq<char>>>,
    n: int,
) -> Seq<u128>
    decreases n,
{
    if n <= 0 {
        Seq::empty()
    } else {
        let now = after_releasing(tasks, ids, claims, n - 1);
        let sofar = dropped_ids(tasks, ids, claims, n - 1);
        if is_held(now, ids[n - 1], claims[n - 1]) && task_of(
            now,
            ids[n - 1],
        ).delivery_attempts > MAX_DELIVERY_ATTEMPTS {
            sofar.push(ids[n - 1])
        } else {
            sofar
        }
    }
}

/// A claim begins with who makes it and names the process; taking a result marks it so, with
/// one attempt more, and leaves every other task as it is.
pub proof fn claims_name_their_holder(
    before: TaskModel,
    after: TaskModel,
    session: Seq<char>,
    consumer: Seq<char>,
    pid: u32,
    now_ms: u64,
)
    requires
        is_claim_step(before, after, session, consumer, pid, now_ms),
        before.delivery_attempts < u32::MAX,
    ensures
        is_claimable(before, session, now_ms) ==> {
            &&& after.delivery_claim matches Some(c) && text::starts_with(
                c,
                consumer + ":"@ + text::decimal(pid as nat) + ":"@,
            )
            &&& after.delivery_state == DeliveryState::Claimed
            &&& after.delivery_attempts == before.delivery_attempts + 1
            &&& after.delivery_claimed_at_ms == Some(now_ms)
            &&& after.child_agent_id == before.child_agent_id
            &&& after.result == before.result
            &&& after.status == before.status
        },
        !is_claimable(before, session, now_ms) ==> after == before,
{
    if is_claimable(before, session, now_ms) {
        let token = choose|token: u128|
            after == claimed(before, #[trigger] claim_text(consumer, pid, token), now_ms);
        let c = claim_text(consumer, pid, token);
        let head = consumer + ":"@ + text::decimal(pid as nat) + ":"@;
        assert(c.subrange(0, head.len() as int) =~= head);
    }
}

/// As many tasks are gone through as there are both of them and of claims; a task is held by
/// the claim it was given, and by anyone who names none.
pub proof fn whose_claims_hold(tasks: Seq<TaskModel>, id: u128, a: nat, b: nat, c: Seq<char>)
    requires
        has_task(tasks, id),
    ensures
        pair_count(a, b) <= a && pair_count(a, b) <= b,
        pair_count(a, b) == a || pair_count(a, b) == b,
        is_held(tasks, id, None),
        is_held(tasks, id, Some(c)) == (task_of(tasks, id).delivery_claim == Some(c)),
{
}

} // verus!

//! What a process knows of the tasks that run in the background.
use vstd::prelude::*;

use crate::delegation::recovery;
use crate::delegation::registry;
use crate::delegation::registry::BackgroundTaskRegistry;
use crate::delegation::types::{BackgroundTask, TaskModel};
use crate::ids;
use crate::ids::{fresh_id, id_to_text};
use crate::result::{SubagentModel, SubagentResult};

verus! {

broadcast use crate::seqs::group_views;

/// The tasks in the background and the name of the process.
#[derive(Debug)]
pub struct DelegationManager {
    pub registry: BackgroundTaskRegistry,
    /// Which process this is.
    pub instance_id: String,
}

/// A result as it is told: whose it is, of which goal, and what it is.
pub type ToldResult = (u128, Seq<char>, SubagentModel);

/// A result as it is told.
pub open spec fn told(r: (u128, String, SubagentResult)) -> ToldResult {
    (r.0, r.1@, r.2@)
}

/// Results as they are told.
pub open spec fn told_all(results: Seq<(u128, String, SubagentResult)>) -> Seq<ToldResult> {
    results.map_values(|r: (u128, String, SubagentResult)| told(r))
}

/// The results of those tasks that have one.
pub open spec fn told_results(tasks: Seq<TaskModel>) -> Seq<ToldResult>
    decreases tasks.len(),
{
    if tasks.len() == 0 {
        Seq::empty()
    } else {
        let before = told_results(tasks.drop_last());
        match tasks.last().result {
            Some(r) => before.push((tasks.last().child_agent_id, tasks.last().goal, r)),
            None => before,
        }
    }
}

/// The agents of those tasks.
pub open spec fn agent_ids(tasks: Seq<TaskModel>) -> Seq<u128> {
    tasks.map_values(|t: TaskModel| t.child_agent_id)
}

/// Every task may be claimed once more.
pub open spec fn attempts_fit(tasks: Seq<TaskModel>) -> bool {
    forall|i: int| 0 <= i < tasks.len() ==> (#[trigger] tasks[i]).delivery_attempts < u32::MAX
}

/// The results of those tasks that have one.
pub fn results_of(tasks: &[BackgroundTask]) -> (r: Vec<(u128, String, SubagentResult)>)
    ensures
        told_all(r@) == told_results(tasks.deep_view()),
{
    let ghost all = tasks.deep_view();
    let mut out: Vec<(u128, String, SubagentResult)> = Vec::new();
    let mut i: usize = 0;
    assert(all.take(0) =~= Seq::empty());
    assert(told_all(out@) =~= Seq::empty());
    while i < tasks.len()
        invariant
            i <= tasks@.len(),
            all == tasks.deep_view(),
            told_all(out@) == told_results(all.take(i as int)),
        decreases tasks@.len() - i,
    {
        assert(all.take(i + 1).drop_last() =~= all.take(i as int));
        assert(all.take(i + 1).last() == tasks@[i as int]@);
        if let Some(result) = &tasks[i].result {
            let ghost before = out@;
            out.push((tasks[i].child_agent_id, tasks[i].goal.clone(), result.clone()));
            assert(told_all(out@) =~= told_all(before).push(told(out@.last())));
        }
        i += 1;
    }
    assert(all.take(i as int) =~= all);
    out
}

/// The agents of those tasks.
fn ids_of(tasks: &[BackgroundTask]) -> (r: Vec<u128>)
    ensures
        r@ == agent_ids(tasks.deep_view()),
{
    let mut out: Vec<u128> = Vec::new();
    let mut i: usize = 0;
    while i < tasks.len()
        invariant
            i <= tasks@.len(),
            out@.len() == i,
            forall|k: int| 0 <= k < i ==> out@[k] == (#[trigger] tasks@[k]).child_agent_id,
        decreases tasks@.len() - i,
    {
        out.push(tasks[i].child_agent_id);
        i += 1;
    }
    assert(out@ =~= agent_ids(tasks.deep_view()));
    out
}

impl DelegationManager {
    /// A process that knows of no tasks, under a fresh name.
    pub fn new() -> (r: Self)
        ensures
            r.registry.wf(),
            r.registry@ == Seq::<TaskModel>::empty(),
            exists|id: u128| r.instance_id@ == #[trigger] ids::id_text(id),
    {
        DelegationManager {
            registry: BackgroundTaskRegistry::new(),
            instance_id: id_to_text(fresh_id()),
        }
    }

    /// Takes up the tasks that an earlier process has stored; how many there are.
    pub fn recover_persisted(&mut self, stored: &[BackgroundTask], now_ms: u64) -> (r: usize)
        requires
            old(self).registry.wf(),
        ensures
            final(self).registry.wf(),
            final(self).instance_id == old(self).instance_id,
            final(self).registry@ == recovery::after_recovery(
                old(self).registry@,
                stored.deep_view(),
                old(self).instance_id@,
                now_ms,
            ),
            r == stored@.len(),
    {
        self.registry.recover(stored, self.instance_id.as_str(), now_ms)
    }

    /// Takes the results that are ready for a session, and the agents whose tasks are no
    /// longer to be stored.
    pub fn drain_background_results_by_session(&mut self, session_id: &str) -> (r: (
        Vec<(u128, String, SubagentResult)>,
        Vec<u128>,
    ))
        requires
            old(self).registry.wf(),
        ensures
            final(self).registry.wf(),
            final(self).instance_id == old(self).instance_id,
            ({
                let ready = old(self).registry@.filter(
                    |t: TaskModel| registry::is_ready_for_session(t, session_id@),
                );
                &&& told_all(r.0@) == told_results(ready)
                &&& r.1@ == agent_ids(ready)
            }),
            final(self).registry@ == old(self).registry@.filter(
                |t: TaskModel| !registry::is_ready_for_session(t, session_id@),
            ),
    {
        let drained = self.registry.drain_by_session(session_id);
        (results_of(drained.as_slice()), ids_of(drained.as_slice()))
    }

    /// Whether every task may be claimed once more.
    pub fn can_claim(&self) -> (r: bool)
        ensures
            r == attempts_fit(self.registry@),
    {
        self.registry.attempts_fit()
    }

    /// Claims the results that are ready for a session.
    pub fn claim_completed_tasks(&mut self, session_id: &str, pid: u32, now_ms: u64) -> (r: Vec<
        BackgroundTask,
    >)
        requires
            old(self).registry.wf(),
            attempts_fit(old(self).registry@),
        ensures
            final(self).registry.wf(),
            final(self).instance_id == old(self).instance_id,
            final(self).registry@.len() == old(self).registry@.len(),
            forall|i: int|
                0 <= i < old(self).registry@.len() ==> registry::is_claim_step(
                    old(self).registry@[i],
                    #[trigger] final(self).registry@[i],
                    session_id@,
                    old(self).instance_id@,
                    pid,
                    now_ms,
                ),
            r.deep_view() == registry::picked(
                old(self).registry@,
                final(self).registry@,
                session_id@,
                now_ms,
            ),
    {
        self.registry.claim_completed(session_id, self.instance_id.as_str(), pid, now_ms)
    }

    /// Forgets the results that have been delivered; the agents whose tasks are no longer
    /// to be stored. A result that is claimed by another stays.
    pub fn complete_background_delivery(
        &mut self,
        child_agent_ids: &[u128],
        claim_ids: &[Option<String>],
    ) -> (r: Vec<u128>)
        requires
            old(self).registry.wf(),
        ensures
            final(self).registry.wf(),
            final(self).instance_id == old(self).instance_id,
            ({
                let n = registry::pair_count(child_agent_ids@.len(), claim_ids@.len());
                let claims = claim_ids.deep_view();
                let before = old(self).registry@;
                &&& final(self).registry@ == registry::after_completing(
                    before,
                    child_agent_ids@,
                    claims,
                    n,
                )
                &&& r@ == registry::completed_ids(before, child_agent_ids@, claims, n)
            }),
    {
        self.registry.complete_delivery(child_agent_ids, claim_ids)
    }

    /// Gives up claims so that the results are delivered another time; the agents of those
    /// that have been tried too often, which are no longer to be stored.
    pub fn release_background_delivery(
        &mut self,
        child_agent_ids: &[u128],
        claim_ids: &[Option<String>],
    ) -> (r: Vec<u128>)
        requires
            old(self).registry.wf(),
        ensures
            final(self).registry.wf(),
            final(self).instance_id == old(self).instance_id,
            ({
                let n = registry::pair_count(child_agent_ids@.len(), claim_ids@.len());
                let claims = claim_ids.deep_view();
                let before = old(self).registry@;
                &&& final(self).registry@ == registry::after_releasing(
                    before,
                    child_agent_ids@,
                    claims,
                    n,
                )
                &&& r@ == registry::dropped_ids(before, child_agent_ids@, claims, n)
            }),
    {
        self.registry.release_claim(child_agent_ids, claim_ids)
    }

    /// The tasks of a parent.
    pub fn list_background_tasks(&self, parent_agent_id: u128) -> (r: Vec<BackgroundTask>)
        ensures
            r.deep_view() == self.registry@.filter(
                |t: TaskModel| t.parent_agent_id == parent_agent_id,
            ),
    {
        self.registry.list_by_parent(parent_agent_id)
    }

    /// Whether results are ready for a parent.
    pub fn has_background_results(&self, parent_agent_id: u128) -> (r: bool)
        ensures
            r == exists|i: int|
                0 <= i < self.registry@.len() && registry::is_ready_for_parent(
                    #[trigger] self.registry@[i],
                    parent_agent_id,
                ),
    {
        self.registry.has_for_parent(parent_agent_id)
    }
}

/// What is told of tasks are their results: of every task that has one its agent, its goal
/// and the result, and nothing else.
pub proof fn every_result_is_told(tasks: Seq<TaskModel>, r: ToldResult)
    ensures
        told_results(tasks).contains(r) == exists|k: int|
            {
                &&& 0 <= k < tasks.len()
                &&& (#[trigger] tasks[k]).result == Some(r.2)
                &&& tasks[k].child_agent_id == r.0
                &&& tasks[k].goal == r.1
            },
    decreases tasks.len(),
{
    if tasks.len() > 0 {
        let front = tasks.drop_last();
        let before = told_results(front);
        let all = told_results(tasks);
        every_result_is_told(front, r);
        if all.contains(r) {
            let i = choose|i: int| 0 <= i < all.len() && all[i] == r;
            if i < before.len() {
                assert(before[i] == r);
                let k = choose|k: int|
                    {
                        &&& 0 <= k < front.len()
                        &&& (#[trigger] front[k]).result == Some(r.2)
                        &&& front[k].child_agent_id == r.0
                        &&& front[k].goal == r.1
                    };
                assert(tasks[k] == front[k]);
            } else {
                assert(tasks[tasks.len() - 1].result == Some(r.2));
            }
        }
        if exists|k: int|
            {
                &&& 0 <= k < tasks.len()
                &&& (#[trigger] tasks[k]).result == Some(r.2)
                &&& tasks[k].child_agent_id == r.0
                &&& tasks[k].goal == r.1
            } {
            let k = choose|k: int|
                {
                    &&& 0 <= k < tasks.len()
                    &&& (#[trigger] tasks[k]).result == Some(r.2)
                    &&& tasks[k].child_agent_id == r.0
                    &&& tasks[k].goal == r.1
                };
            if k < front.len() {
                assert(front[k] == tasks[k]);
                let i = choose|i: int| 0 <= i < before.len() && before[i] == r;
                assert(all[i] == r);
            } else {
                assert(all[all.len() - 1] == r);
            }
        }
    }
}

} // verus!

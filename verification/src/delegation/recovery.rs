//! Taking up the tasks that an earlier process has left behind.
use vstd::prelude::*;

use crate::delegation::delivery;
use crate::delegation::registry;
use crate::delegation::registry::BackgroundTaskRegistry;
use crate::delegation::types;
use crate::delegation::types::{
    BackgroundTask, BackgroundTaskStatus, DeliveryState, TaskModel, CLAIM_TTL_MS,
};
use crate::result;
use crate::result::SubagentResult;
use crate::text::same_text;

verus! {

broadcast use crate::seqs::group_views;

/// The error of a task whose process ended before it did.
pub const RESTARTED_ERROR: &'static str =
    "process restarted before task completion; result unknown";

/// The task belongs to another process, or to none.
pub open spec fn is_abandoned(t: TaskModel, instance: Seq<char>) -> bool {
    t.owner_instance_id != Some(instance)
}

/// The task with its state settled: where its process is gone, a task that had not ended
/// is of unknown outcome.
pub open spec fn settled(t: TaskModel, instance: Seq<char>) -> TaskModel {
    if is_abandoned(t, instance) && !types::is_final_status(t.status) {
        TaskModel {
            status: BackgroundTaskStatus::Unknown,
            result: if t.result is None {
                Some(result::failed(RESTARTED_ERROR@, 0, 0))
            } else {
                t.result
            },
            ..t
        }
    } else {
        t
    }
}

/// The task with a claim taken back that has run out.
pub open spec fn unclaimed(t: TaskModel, now_ms: u64) -> TaskModel {
    if t.delivery_state == DeliveryState::Claimed && registry::claim_expired(t, now_ms) {
        TaskModel {
            delivery_state: DeliveryState::Pending,
            delivery_claim: None,
            delivery_claimed_at_ms: None,
            ..t
        }
    } else {
        t
    }
}

/// The task as a process takes it up.
pub open spec fn recovered(t: TaskModel, instance: Seq<char>, now_ms: u64) -> TaskModel {
    unclaimed(settled(t, instance), now_ms)
}

/// The tasks once all that were stored are taken up, one after the other.
pub open spec fn after_recovery(
    tasks: Seq<TaskModel>,
    stored: Seq<TaskModel>,
    instance: Seq<char>,
    now_ms: u64,
) -> Seq<TaskModel>
    decreases stored.len(),
{
    if stored.len() == 0 {
        tasks
    } else {
        registry::registered(
            after_recovery(tasks, stored.drop_last(), instance, now_ms),
            recovered(stored.last(), instance, now_ms),
        )
    }
}

/// The task as the process of that name takes it up.
pub fn recover_task(task: &BackgroundTask, instance: &str, now_ms: u64) -> (r: BackgroundTask)
    ensures
        r@ == recovered(task@, instance@, now_ms),
{
    let mut t = task.clone();
    let owned = match &t.owner_instance_id {
        Some(owner) => same_text(owner.as_str(), instance),
        None => false,
    };
    if !owned && !t.status.is_terminal() {
        t.status = BackgroundTaskStatus::Unknown;
        if t.result.is_none() {
            t.result = Some(SubagentResult::from_error(RESTARTED_ERROR, 0, 0));
        }
    }
    if t.delivery_state == DeliveryState::Claimed {
        let expired = match t.delivery_claimed_at_ms {
            Some(at) => now_ms > at && now_ms - at > CLAIM_TTL_MS,
            None => true,
        };
        if expired {
            t.delivery_state = DeliveryState::Pending;
            t.delivery_claim = None;
            t.delivery_claimed_at_ms = None;
        }
    }
    t
}

impl BackgroundTaskRegistry {
    /// Takes up the tasks that were stored; says how many.
    pub fn recover(&mut self, stored: &[BackgroundTask], instance: &str, now_ms: u64) -> (r:
        usize)
        requires
            old(self).wf(),
        ensures
            final(self).wf(),
            final(self)@ == after_recovery(
                old(self)@,
                stored.deep_view(),
                instance@,
                now_ms,
            ),
            r == stored@.len(),
    {
        let ghost before = self@;
        let ghost all = stored.deep_view();
        let mut i: usize = 0;
        assert(all.take(0) =~= Seq::<TaskModel>::empty());
        while i < stored.len()
            invariant
                i <= stored@.len(),
                all == stored.deep_view(),
                self.wf(),
                self@ == after_recovery(before, all.take(i as int), instance@, now_ms),
            decreases stored@.len() - i,
        {
            let t = recover_task(&stored[i], instance, now_ms);
            self.register(t);
            proof {
                assert(all.take(i + 1).drop_last() =~= all.take(i as int));
                assert(all.take(i + 1).last() == all[i as int]);
            }
            i += 1;
        }
        assert(all.take(i as int) =~= all);
        i
    }
}

/// A task that a process takes up is of its own, or has ended: none is left running
/// that nobody runs. Its state changes only to one that may follow, and a task of
/// unknown outcome has a result to deliver.
pub proof fn nothing_is_left_running(t: TaskModel, instance: Seq<char>, now_ms: u64)
    ensures
        ({
            let r = recovered(t, instance, now_ms);
            &&& is_abandoned(t, instance) ==> types::is_final_status(r.status)
            &&& r.status == t.status || types::status_may_follow(t.status, r.status)
            &&& r.status != t.status ==> r.result is Some
        }),
{
}

/// A result that was there is kept as it was.
pub proof fn results_survive(t: TaskModel, instance: Seq<char>, now_ms: u64)
    requires
        t.result is Some,
    ensures
        recovered(t, instance, now_ms).result == t.result,
{
}

/// Taking up a task a second time changes nothing.
pub proof fn recovery_is_done_once(t: TaskModel, instance: Seq<char>, now_ms: u64)
    ensures
        recovered(recovered(t, instance, now_ms), instance, now_ms) == recovered(
            t,
            instance,
            now_ms,
        ),
{
}

/// What an ended task was to deliver can still be claimed by its session, unless another
/// process holds a claim that has not run out, or the delivery was given up.
pub proof fn recovered_results_can_be_claimed(
    t: TaskModel,
    instance: Seq<char>,
    session: Seq<char>,
    now_ms: u64,
)
    requires
        registry::target_session(t) == Some(session),
        is_abandoned(t, instance),
        t.delivery_state == DeliveryState::Pending || t.delivery_state == DeliveryState::Claimed
            && registry::claim_expired(t, now_ms),
    ensures
        registry::is_claimable(recovered(t, instance, now_ms), session, now_ms),
{
}

/// A task of this process, and one that has ended, is taken up again as it was, but for a
/// claim that has run out; what a task was about never changes. One that another process has
/// left is told to have failed.
pub proof fn tasks_are_taken_up_as_they_were(t: TaskModel, instance: Seq<char>, now_ms: u64)
    ensures
        ({
            let r = recovered(t, instance, now_ms);
            let over = t.delivery_state == DeliveryState::Claimed && (t.delivery_claimed_at_ms
                matches Some(at) ==> now_ms > at + 300_000);
            let left = t.owner_instance_id != Some(instance) && (t.status
                == BackgroundTaskStatus::Running || t.status == BackgroundTaskStatus::Finalizing);
            &&& !over && !left ==> r == t
            &&& left ==> r.status == BackgroundTaskStatus::Unknown
            &&& left && t.result is None ==> (r.result matches Some(x) && !x.success)
            &&& !left ==> r.status == t.status && r.result == t.result
            &&& over ==> r.delivery_state == DeliveryState::Pending && r.delivery_claim is None
            &&& !over ==> r.delivery_state == t.delivery_state && r.delivery_claim
                == t.delivery_claim
            &&& r.child_agent_id == t.child_agent_id
            &&& r.parent_agent_id == t.parent_agent_id
            &&& r.goal == t.goal
            &&& r.session_id == t.session_id
            &&& r.origin_session_id == t.origin_session_id
            &&& r.delivery_attempts == t.delivery_attempts
            &&& r.live_transcript == t.live_transcript
        }),
{
}

/// Every task that was stored is there after recovery, as the last that was stored of its
/// agent; tasks of other agents are as they were.
pub proof fn every_stored_task_is_there(
    tasks: Seq<TaskModel>,
    stored: Seq<TaskModel>,
    instance: Seq<char>,
    now_ms: u64,
    id: u128,
    k: int,
)
    requires
        registry::agents_differ(tasks),
        -1 <= k < stored.len(),
        k >= 0 ==> stored[k].child_agent_id == id,
        forall|j: int| k < j < stored.len() ==> (#[trigger] stored[j]).child_agent_id != id,
    ensures
        ({
            let after = after_recovery(tasks, stored, instance, now_ms);
            &&& registry::agents_differ(after)
            &&& k >= 0 ==> registry::has_task(after, id) && registry::task_of(after, id)
                == recovered(stored[k], instance, now_ms)
            &&& k < 0 ==> registry::has_task(after, id) == registry::has_task(tasks, id)
            &&& k < 0 && registry::has_task(tasks, id) ==> registry::task_of(after, id)
                == registry::task_of(tasks, id)
        }),
    decreases stored.len(),
{
    if stored.len() > 0 {
        let front = stored.drop_last();
        let before = after_recovery(tasks, front, instance, now_ms);
        let t = recovered(stored.last(), instance, now_ms);
        recovery_keeps_apart(tasks, front, instance, now_ms);
        registry::register_keeps_apart(before, t);
        if k == stored.len() - 1 {
            delivery::a_registered_task_is_there(
                before,
                t,
                if id == 0 {
                    1
                } else {
                    0
                },
            );
        } else {
            assert forall|j: int| k < j < front.len() implies (#[trigger] front[j]).child_agent_id
                != id by {
                assert(front[j] == stored[j]);
            }
            assert(stored[stored.len() - 1].child_agent_id != id);
            every_stored_task_is_there(tasks, front, instance, now_ms, id, k);
            delivery::a_registered_task_is_there(before, t, id);
        }
    }
}

/// Recovery keeps the agents apart.
proof fn recovery_keeps_apart(
    tasks: Seq<TaskModel>,
    stored: Seq<TaskModel>,
    instance: Seq<char>,
    now_ms: u64,
)
    requires
        registry::agents_differ(tasks),
    ensures
        registry::agents_differ(after_recovery(tasks, stored, instance, now_ms)),
    decreases stored.len(),
{
    if stored.len() > 0 {
        recovery_keeps_apart(tasks, stored.drop_last(), instance, now_ms);
        registry::register_keeps_apart(
            after_recovery(tasks, stored.drop_last(), instance, now_ms),
            recovered(stored.last(), instance, now_ms),
        );
    }
}

} // verus!

//! What holds of the delivery of results: each is taken up by one session at a time,
//! is gone once the delivery is confirmed, and is given up once its attempts exceed a
//! limit.
use vstd::prelude::*;

use crate::delegation::registry;
use crate::delegation::types;
use crate::delegation::types::{
    BackgroundTaskStatus, DeliveryState, SnapshotModel, TaskModel, CLAIM_TTL_MS,
    MAX_DELIVERY_ATTEMPTS,
};
use crate::result::SubagentModel;
use crate::text;

verus! {

/// While a claim holds, nobody else can claim the result or take it away.
pub proof fn a_claim_is_exclusive(
    t: TaskModel,
    claim: Seq<char>,
    now_ms: u64,
    later_ms: u64,
    session: Seq<char>,
    parent: u128,
)
    requires
        later_ms - now_ms <= CLAIM_TTL_MS,
    ensures
        ({
            let c = registry::claimed(t, claim, now_ms);
            &&& !registry::is_claimable(c, session, later_ms)
            &&& !registry::is_ready_for_session(c, session)
            &&& !registry::is_ready_for_parent(c, parent)
        }),
{
}

/// The tasks after the claiming of a session, task by task.
pub open spec fn is_claiming(
    before: Seq<TaskModel>,
    after: Seq<TaskModel>,
    session: Seq<char>,
    consumer: Seq<char>,
    pid: u32,
    now_ms: u64,
) -> bool {
    &&& after.len() == before.len()
    &&& forall|i: int|
        0 <= i < before.len() ==> registry::is_claim_step(
            before[i],
            #[trigger] after[i],
            session,
            consumer,
            pid,
            now_ms,
        )
}

/// What is handed out are the tasks that could be claimed, as they are after it.
proof fn picked_were_claimable(
    before: Seq<TaskModel>,
    after: Seq<TaskModel>,
    session: Seq<char>,
    now_ms: u64,
    t: TaskModel,
)
    requires
        after.len() == before.len(),
    ensures
        registry::picked(before, after, session, now_ms).contains(t) == exists|i: int|
            0 <= i < before.len() && registry::is_claimable(before[i], session, now_ms)
                && #[trigger] after[i] == t,
    decreases before.len(),
{
    if before.len() > 0 {
        let b = before.drop_last();
        let a = after.drop_last();
        let rest = registry::picked(b, a, session, now_ms);
        let all = registry::picked(before, after, session, now_ms);
        picked_were_claimable(b, a, session, now_ms, t);
        if all.contains(t) {
            let k = choose|k: int| 0 <= k < all.len() && all[k] == t;
            if k < rest.len() {
                assert(rest[k] == t);
                let i = choose|i: int|
                    0 <= i < b.len() && registry::is_claimable(b[i], session, now_ms)
                        && #[trigger] a[i] == t;
                assert(after[i] == t && before[i] == b[i]);
            } else {
                assert(after[before.len() - 1] == t);
            }
        }
        if exists|i: int|
            0 <= i < before.len() && registry::is_claimable(before[i], session, now_ms)
                && #[trigger] after[i] == t {
            let i = choose|i: int|
                0 <= i < before.len() && registry::is_claimable(before[i], session, now_ms)
                    && #[trigger] after[i] == t;
            if i < b.len() {
                assert(a[i] == t && b[i] == before[i]);
                let k = choose|k: int| 0 <= k < rest.len() && rest[k] == t;
                assert(all[k] == t);
            } else {
                assert(all[all.len() - 1] == t);
            }
        }
    }
}

/// What a session is handed out by claiming was final and meant for it. It is claimed in
/// the name of who claims it, with one attempt more, and is otherwise as it was; the tasks
/// that could not be claimed are as they were.
pub proof fn claiming_marks_what_is_handed_out(
    before: Seq<TaskModel>,
    after: Seq<TaskModel>,
    session: Seq<char>,
    consumer: Seq<char>,
    pid: u32,
    now_ms: u64,
    i: int,
)
    requires
        is_claiming(before, after, session, consumer, pid, now_ms),
        0 <= i < before.len(),
        before[i].delivery_attempts < u32::MAX,
    ensures
        registry::is_claimable(before[i], session, now_ms) ==> {
            let (b, a) = (before[i], after[i]);
            &&& registry::picked(before, after, session, now_ms).contains(a)
            &&& types::is_final_status(b.status)
            &&& b.origin_session_id == Some(session) || b.origin_session_id is None
                && b.session_id == Some(session)
            &&& a.delivery_state == DeliveryState::Claimed
            &&& a.delivery_attempts == b.delivery_attempts + 1
            &&& a.delivery_claimed_at_ms == Some(now_ms)
            &&& a.delivery_claim matches Some(claim) && text::starts_with(claim, consumer + ":"@)
            &&& a == TaskModel {
                delivery_state: a.delivery_state,
                delivery_attempts: a.delivery_attempts,
                delivery_claim: a.delivery_claim,
                delivery_claimed_at_ms: a.delivery_claimed_at_ms,
                ..b
            }
        },
        !registry::is_claimable(before[i], session, now_ms) ==> after[i] == before[i],
{
    assert(registry::is_claim_step(before[i], after[i], session, consumer, pid, now_ms));
    if registry::is_claimable(before[i], session, now_ms) {
        picked_were_claimable(before, after, session, now_ms, after[i]);
        let token = choose|token: u128|
            after[i] == registry::claimed(
                before[i],
                #[trigger] registry::claim_text(consumer, pid, token),
                now_ms,
            );
        let claim = registry::claim_text(consumer, pid, token);
        let head = consumer + ":"@;
        assert(claim.subrange(0, head.len() as int) =~= head);
    }
}

/// Two sessions, or one session twice, that claim one after the other are handed out no
/// result in common, as long as the first claims have not run out.
pub proof fn two_claims_share_no_result(
    before: Seq<TaskModel>,
    between: Seq<TaskModel>,
    after: Seq<TaskModel>,
    sessions: (Seq<char>, Seq<char>),
    consumers: (Seq<char>, Seq<char>),
    pids: (u32, u32),
    now_ms: u64,
    later_ms: u64,
    one: TaskModel,
    other: TaskModel,
)
    requires
        registry::agents_differ(before),
        is_claiming(before, between, sessions.0, consumers.0, pids.0, now_ms),
        is_claiming(between, after, sessions.1, consumers.1, pids.1, later_ms),
        later_ms - now_ms <= CLAIM_TTL_MS,
        registry::picked(before, between, sessions.0, now_ms).contains(one),
        registry::picked(between, after, sessions.1, later_ms).contains(other),
    ensures
        one.child_agent_id != other.child_agent_id,
{
    picked_were_claimable(before, between, sessions.0, now_ms, one);
    picked_were_claimable(between, after, sessions.1, later_ms, other);
    let i = choose|i: int|
        0 <= i < before.len() && registry::is_claimable(before[i], sessions.0, now_ms)
            && #[trigger] between[i] == one;
    let j = choose|j: int|
        0 <= j < between.len() && registry::is_claimable(between[j], sessions.1, later_ms)
            && #[trigger] after[j] == other;
    assert(registry::is_claim_step(
        before[i],
        between[i],
        sessions.0,
        consumers.0,
        pids.0,
        now_ms,
    ));
    assert(registry::is_claim_step(
        before[j],
        between[j],
        sessions.0,
        consumers.0,
        pids.0,
        now_ms,
    ));
    assert(registry::is_claim_step(
        between[j],
        after[j],
        sessions.1,
        consumers.1,
        pids.1,
        later_ms,
    ));
    assert(i != j);
    assert(one.child_agent_id == before[i].child_agent_id);
    assert(other.child_agent_id == before[j].child_agent_id);
    if i < j {
        assert(before[i].child_agent_id != before[j].child_agent_id);
    } else {
        assert(before[j].child_agent_id != before[i].child_agent_id);
    }
}

/// A claim that has run out lets its session claim the result again.
pub proof fn an_old_claim_runs_out(
    t: TaskModel,
    claim: Seq<char>,
    now_ms: u64,
    later_ms: u64,
    session: Seq<char>,
)
    requires
        registry::is_claimable(t, session, now_ms),
        later_ms - now_ms > CLAIM_TTL_MS,
    ensures
        registry::is_claimable(registry::claimed(t, claim, now_ms), session, later_ms),
{
}

/// Claiming and releasing counts one attempt. The result can be claimed again at once,
/// until the attempts are used up.
pub proof fn a_release_allows_another_attempt(
    t: TaskModel,
    claim: Seq<char>,
    now_ms: u64,
    later_ms: u64,
    session: Seq<char>,
)
    requires
        registry::is_claimable(t, session, now_ms),
        t.delivery_attempts < MAX_DELIVERY_ATTEMPTS,
    ensures
        ({
            let r = registry::released(registry::claimed(t, claim, now_ms));
            &&& r.delivery_attempts == t.delivery_attempts + 1
            &&& r.delivery_state == DeliveryState::Pending
            &&& registry::is_claimable(r, session, later_ms)
        }),
{
}

/// With an attempt released that exceeds the limit, the result is given up for good: nobody can claim it
/// or take it away any more.
pub proof fn the_last_attempt_drops(
    t: TaskModel,
    claim: Seq<char>,
    now_ms: u64,
    later_ms: u64,
    session: Seq<char>,
    parent: u128,
)
    requires
        MAX_DELIVERY_ATTEMPTS <= t.delivery_attempts < u32::MAX,
    ensures
        ({
            let r = registry::released(registry::claimed(t, claim, now_ms));
            &&& r.delivery_state == DeliveryState::Dropped
            &&& !registry::is_claimable(r, session, later_ms)
            &&& !registry::is_ready_for_session(r, session)
            &&& !registry::is_ready_for_parent(r, parent)
        }),
{
}

/// A claim that is not the one of the task neither removes the task nor releases it.
pub proof fn a_foreign_claim_changes_nothing(
    tasks: Seq<TaskModel>,
    id: u128,
    claim: Seq<char>,
)
    requires
        registry::has_task(tasks, id),
        registry::task_of(tasks, id).delivery_claim != Some(claim),
    ensures
        registry::after_completing(tasks, seq![id], seq![Some(claim)], 1) == tasks,
        registry::completed_ids(tasks, seq![id], seq![Some(claim)], 1) == Seq::<u128>::empty(),
        registry::after_releasing(tasks, seq![id], seq![Some(claim)], 1) == tasks,
        registry::dropped_ids(tasks, seq![id], seq![Some(claim)], 1) == Seq::<u128>::empty(),
{
    reveal_with_fuel(registry::after_completing, 2);
    reveal_with_fuel(registry::completed_ids, 2);
    reveal_with_fuel(registry::after_releasing, 2);
    reveal_with_fuel(registry::dropped_ids, 2);
}

/// Confirming deliveries adds no task and keeps the agents apart.
proof fn completing_only_removes(
    tasks: Seq<TaskModel>,
    ids: Seq<u128>,
    claims: Seq<Option<Seq<char>>>,
    n: int,
)
    requires
        registry::agents_differ(tasks),
    ensures
        registry::agents_differ(registry::after_completing(tasks, ids, claims, n)),
        forall|id: u128|
            #[trigger] registry::has_task(
                registry::after_completing(tasks, ids, claims, n),
                id,
            ) ==> registry::has_task(tasks, id),
    decreases n,
{
    if n > 0 {
        completing_only_removes(tasks, ids, claims, n - 1);
        let now = registry::after_completing(tasks, ids, claims, n - 1);
        if registry::is_held(now, ids[n - 1], claims[n - 1]) {
            step_only_removes(now, ids[n - 1], claims[n - 1]);
        }
    }
}

/// Confirming one delivery adds no task and keeps the agents apart.
proof fn step_only_removes(now: Seq<TaskModel>, id: u128, claim: Option<Seq<char>>)
    requires
        registry::agents_differ(now),
        registry::is_held(now, id, claim),
    ensures
        registry::agents_differ(registry::without_task(now, id)),
        !registry::has_task(registry::without_task(now, id), id),
        forall|other: u128|
            #[trigger] registry::has_task(registry::without_task(now, id), other)
                ==> registry::has_task(now, other),
{
    let k = registry::task_position(now, id);
    assert(registry::task_at(now, id, k));
    registry::remove_keeps_apart(now, k);
    let rest = registry::without_task(now, id);
    assert forall|other: u128| #[trigger] registry::has_task(rest, other) implies registry::has_task(
        now,
        other,
    ) by {
        let j = registry::task_position(rest, other);
        assert(registry::task_at(rest, other, j));
        let i = if j < k { j } else { j + 1 };
        assert(registry::task_at(now, other, i));
    }
}

/// A result whose delivery is confirmed is gone: there is no task of its agent any more,
/// so that it is not delivered again.
pub proof fn a_confirmed_result_is_gone(
    tasks: Seq<TaskModel>,
    ids: Seq<u128>,
    claims: Seq<Option<Seq<char>>>,
    n: int,
    id: u128,
)
    requires
        registry::agents_differ(tasks),
        registry::completed_ids(tasks, ids, claims, n).contains(id),
    ensures
        !registry::has_task(registry::after_completing(tasks, ids, claims, n), id),
    decreases n,
{
    if n > 0 {
        let now = registry::after_completing(tasks, ids, claims, n - 1);
        let sofar = registry::completed_ids(tasks, ids, claims, n - 1);
        completing_only_removes(tasks, ids, claims, n - 1);
        if registry::is_held(now, ids[n - 1], claims[n - 1]) {
            step_only_removes(now, ids[n - 1], claims[n - 1]);
            if id != ids[n - 1] {
                let all = sofar.push(ids[n - 1]);
                let k = choose|k: int| 0 <= k < all.len() && all[k] == id;
                assert(sofar[k] == id);
                a_confirmed_result_is_gone(tasks, ids, claims, n - 1, id);
            }
        } else {
            a_confirmed_result_is_gone(tasks, ids, claims, n - 1, id);
        }
    }
}

/// Whatever is done to a task changes its state only to one that may follow, and what is
/// done to deliver its result does not change the state at all.
pub proof fn states_follow_one_another(
    t: TaskModel,
    result: SubagentModel,
    error: Seq<char>,
    sample: SnapshotModel,
    claim: Seq<char>,
    now_ms: u64,
)
    ensures
        t.status == BackgroundTaskStatus::Running ==> types::status_may_follow(
            t.status,
            registry::begun(t).status,
        ),
        t.status == BackgroundTaskStatus::Finalizing ==> types::status_may_follow(
            t.status,
            registry::finished(t, result, now_ms).status,
        ),
        t.status == BackgroundTaskStatus::Running ==> types::status_may_follow(
            t.status,
            registry::stalled(t, error, now_ms).status,
        ),
        registry::sampled(t, sample).status == t.status,
        registry::claimed(t, claim, now_ms).status == t.status,
        registry::released(t).status == t.status,
{
}

/// Results that were taken away are not taken again: among the tasks that are left there
/// is none of those.
pub proof fn a_taken_result_is_not_taken_again(
    tasks: Seq<TaskModel>,
    taken: spec_fn(TaskModel) -> bool,
)
    ensures
        tasks.filter(|t: TaskModel| !taken(t)).filter(taken) == Seq::<TaskModel>::empty(),
{
    let left = tasks.filter(|t: TaskModel| !taken(t));
    let again = left.filter(taken);
    if again.len() > 0 {
        let t = again[0];
        assert(again.contains(t));
        left.lemma_filter_contains_rev(taken, t);
        let k = choose|k: int| 0 <= k < left.len() && left[k] == t;
        let kept = |t: TaskModel| !taken(t);
        assert(kept(left[k]));
        assert(taken(again[0]));
    }
    assert(again =~= Seq::<TaskModel>::empty());
}

/// What a sub-agent gives back is kept with its task, as it is: the task is completed where
/// it succeeded and has failed where not, and waits to be delivered. What the task was about,
/// and to whom it goes, does not change.
pub proof fn a_result_is_kept_with_its_task(t: TaskModel, r: SubagentModel, now_ms: u64)
    ensures
        ({
            let f = registry::finished(t, r, now_ms);
            &&& f.result == Some(r)
            &&& r.success ==> f.status == BackgroundTaskStatus::Completed
            &&& !r.success ==> f.status == BackgroundTaskStatus::Failed
            &&& f.delivery_state == DeliveryState::Pending
            &&& f.completed_at_ms == Some(now_ms)
            &&& f.goal == t.goal
            &&& f.child_agent_id == t.child_agent_id
            &&& f.parent_agent_id == t.parent_agent_id
            &&& f.session_id == t.session_id
            &&& f.origin_session_id == t.origin_session_id
            &&& f.delegation_id == t.delegation_id
            &&& f.owner_instance_id == t.owner_instance_id
            &&& f.delivery_attempts == t.delivery_attempts
        }),
{
}

/// A task that is stopped because it was stuck has failed with the reason, and waits to be
/// delivered like any other.
pub proof fn a_stuck_task_has_failed(t: TaskModel, error: Seq<char>, now_ms: u64)
    ensures
        ({
            let s = registry::stalled(t, error, now_ms);
            &&& s.status == BackgroundTaskStatus::Stale
            &&& s.result matches Some(r) && !r.success && r.error_message == Some(error)
                && r.usage.iterations == 0 && r.usage.tool_calls == 0
            &&& s.delivery_state == DeliveryState::Pending
            &&& s.delivery_claim is None
            &&& s.completed_at_ms == Some(now_ms)
            &&& s.goal == t.goal
            &&& s.child_agent_id == t.child_agent_id
            &&& s.parent_agent_id == t.parent_agent_id
            &&& s.session_id == t.session_id
            &&& s.origin_session_id == t.origin_session_id
        }),
{
}

/// A sample of a running task is the last that is kept; of those before it the latest are
/// kept, fifty in all at the most. Nothing else changes.
pub proof fn samples_are_kept(t: TaskModel, s: SnapshotModel)
    requires
        t.live_transcript.len() <= 50,
    ensures
        ({
            let after = registry::sampled(t, s);
            let n = t.live_transcript.len() as int;
            let kept = after.live_transcript;
            &&& 0 < kept.len() <= 50
            &&& kept.last() == s
            &&& n < 50 ==> kept.drop_last() == t.live_transcript
            &&& n == 50 ==> kept.drop_last() == t.live_transcript.skip(1)
            &&& after == (TaskModel { live_transcript: kept, ..t })
        }),
{
    let kept = registry::sampled(t, s).live_transcript;
    if t.live_transcript.len() < 50 {
        assert(kept.drop_last() =~= t.live_transcript);
    } else {
        assert(kept.drop_last() =~= t.live_transcript.skip(1));
    }
}

/// A result waits for the session that the task came from, or for the one that it belongs
/// to where that is not known, and for the parent that asked for it: once it is there and
/// until it is claimed, and for nobody else.
pub proof fn results_wait_for_those_who_asked(t: TaskModel, session: Seq<char>, parent: u128)
    ensures
        ({
            let there = t.status == BackgroundTaskStatus::Completed || t.status
                == BackgroundTaskStatus::Failed || t.status == BackgroundTaskStatus::Stale;
            let mine = t.origin_session_id == Some(session) || t.origin_session_id is None
                && t.session_id == Some(session);
            &&& registry::is_ready_for_parent(t, parent) == (there && t.delivery_state
                == DeliveryState::Pending && t.parent_agent_id == parent)
            &&& registry::is_ready_for_session(t, session) == ((there || t.status
                == BackgroundTaskStatus::Unknown) && t.delivery_state == DeliveryState::Pending
                && mine)
        }),
{
}

/// A result can be claimed by the session that it waits for, once it is there: as long as
/// nobody has claimed it, and again when a claim has run out after five minutes.
pub proof fn when_a_result_can_be_claimed(t: TaskModel, session: Seq<char>, now_ms: u64)
    ensures
        ({
            let there = t.status != BackgroundTaskStatus::Running && t.status
                != BackgroundTaskStatus::Finalizing;
            let mine = t.origin_session_id == Some(session) || t.origin_session_id is None
                && t.session_id == Some(session);
            let free = t.delivery_state == DeliveryState::Pending || t.delivery_state
                == DeliveryState::Claimed && (t.delivery_claimed_at_ms matches Some(at)
                ==> now_ms > at + 300_000);
            registry::is_claimable(t, session, now_ms) == (there && mine && free)
        }),
{
}

/// A claim that is released leaves the result where it was, for the next one to claim it,
/// until it was attempted more than eight times.
pub proof fn a_released_result_is_still_there(t: TaskModel)
    ensures
        ({
            let r = registry::released(t);
            &&& r.result == t.result
            &&& r.status == t.status
            &&& r.goal == t.goal
            &&& r.child_agent_id == t.child_agent_id
            &&& r.delivery_attempts == t.delivery_attempts
            &&& r.delivery_claim is None
            &&& t.delivery_attempts <= 8 ==> r.delivery_state == DeliveryState::Pending
            &&& t.delivery_attempts > 8 ==> r.delivery_state == DeliveryState::Dropped
        }),
{
}

/// A task that is registered is there, and stands in the place of an earlier one of the same
/// agent; the tasks of other agents are as they were.
pub proof fn a_registered_task_is_there(tasks: Seq<TaskModel>, t: TaskModel, other: u128)
    requires
        registry::agents_differ(tasks),
        other != t.child_agent_id,
    ensures
        ({
            let after = registry::registered(tasks, t);
            &&& registry::has_task(after, t.child_agent_id)
            &&& registry::task_of(after, t.child_agent_id) == t
            &&& registry::has_task(after, other) == registry::has_task(tasks, other)
            &&& registry::has_task(tasks, other) ==> registry::task_of(after, other)
                == registry::task_of(tasks, other)
        }),
{
    let id = t.child_agent_id;
    let after = registry::registered(tasks, t);
    registry::register_keeps_apart(tasks, t);
    if registry::has_task(tasks, id) {
        let i = registry::task_position(tasks, id);
        assert(registry::task_at(tasks, id, i));
        assert(registry::task_at(after, id, i));
        registry::position_is_unique(after, id, i);
    } else {
        assert(registry::task_at(after, id, tasks.len() as int));
        registry::position_is_unique(after, id, tasks.len() as int);
    }
    if registry::has_task(tasks, other) {
        let j = registry::task_position(tasks, other);
        assert(registry::task_at(tasks, other, j));
        assert(after[j] == tasks[j]);
        assert(registry::task_at(after, other, j));
        registry::position_is_unique(after, other, j);
    }
    if registry::has_task(after, other) {
        let j = registry::task_position(after, other);
        assert(registry::task_at(after, other, j));
        assert(after[j] == tasks[j]);
        assert(registry::task_at(tasks, other, j));
    }
}

/// Taking a task out leaves the others as they were.
proof fn others_stay_without(tasks: Seq<TaskModel>, id: u128, other: u128)
    requires
        registry::agents_differ(tasks),
        registry::has_task(tasks, id),
        other != id,
    ensures
        ({
            let after = registry::without_task(tasks, id);
            &&& registry::agents_differ(after)
            &&& registry::has_task(after, other) == registry::has_task(tasks, other)
            &&& registry::has_task(tasks, other) ==> registry::task_of(after, other)
                == registry::task_of(tasks, other)
        }),
{
    let i = registry::task_position(tasks, id);
    assert(registry::task_at(tasks, id, i));
    let after = registry::without_task(tasks, id);
    registry::remove_keeps_apart(tasks, i);
    if registry::has_task(tasks, other) {
        let j = registry::task_position(tasks, other);
        assert(registry::task_at(tasks, other, j));
        let k = if j < i {
            j
        } else {
            j - 1
        };
        assert(after[k] == tasks[j]);
        assert(registry::task_at(after, other, k));
        registry::position_is_unique(after, other, k);
    }
    if registry::has_task(after, other) {
        let k = registry::task_position(after, other);
        assert(registry::task_at(after, other, k));
        let j = if k < i {
            k
        } else {
            k + 1
        };
        assert(after[k] == tasks[j]);
        assert(registry::task_at(tasks, other, j));
    }
}

/// Changing a task leaves the others as they were.
proof fn others_stay_with(tasks: Seq<TaskModel>, id: u128, t: TaskModel, other: u128)
    requires
        registry::agents_differ(tasks),
        registry::has_task(tasks, id),
        t.child_agent_id == id,
    ensures
        ({
            let after = registry::with_task(tasks, id, t);
            &&& registry::agents_differ(after)
            &&& registry::has_task(after, other) == registry::has_task(tasks, other)
            &&& registry::has_task(after, id)
            &&& registry::task_of(after, id) == t
            &&& other != id && registry::has_task(tasks, other) ==> registry::task_of(after, other)
                == registry::task_of(tasks, other)
        }),
{
    let i = registry::task_position(tasks, id);
    assert(registry::task_at(tasks, id, i));
    let after = registry::with_task(tasks, id, t);
    assert forall|a: int, b: int| 0 <= a < b < after.len() implies (
    #[trigger] after[a]).child_agent_id != (#[trigger] after[b]).child_agent_id by {
        assert(after[a].child_agent_id == tasks[a].child_agent_id);
        assert(after[b].child_agent_id == tasks[b].child_agent_id);
    }
    assert(registry::task_at(after, id, i));
    registry::position_is_unique(after, id, i);
    if registry::has_task(tasks, other) {
        let j = registry::task_position(tasks, other);
        assert(registry::task_at(tasks, other, j));
        assert(registry::task_at(after, other, j));
        registry::position_is_unique(after, other, j);
    }
    if registry::has_task(after, other) {
        let j = registry::task_position(after, other);
        assert(registry::task_at(after, other, j));
        assert(registry::task_at(tasks, other, j));
    }
}

/// Confirming deliveries leaves the tasks of other agents as they were.
proof fn unnamed_tasks_stay(
    tasks: Seq<TaskModel>,
    ids: Seq<u128>,
    claims: Seq<Option<Seq<char>>>,
    n: int,
    other: u128,
)
    requires
        registry::agents_differ(tasks),
        forall|i: int| 0 <= i < n ==> #[trigger] ids[i] != other,
    ensures
        ({
            let done = registry::after_completing(tasks, ids, claims, n);
            let back = registry::after_releasing(tasks, ids, claims, n);
            &&& registry::agents_differ(done)
            &&& registry::agents_differ(back)
            &&& registry::has_task(done, other) == registry::has_task(tasks, other)
            &&& registry::has_task(back, other) == registry::has_task(tasks, other)
            &&& registry::has_task(tasks, other) ==> registry::task_of(done, other)
                == registry::task_of(tasks, other) && registry::task_of(back, other)
                == registry::task_of(tasks, other)
        }),
    decreases n,
{
    if n > 0 {
        unnamed_tasks_stay(tasks, ids, claims, n - 1, other);
        let id = ids[n - 1];
        let done = registry::after_completing(tasks, ids, claims, n - 1);
        let back = registry::after_releasing(tasks, ids, claims, n - 1);
        if registry::is_held(done, id, claims[n - 1]) {
            others_stay_without(done, id, other);
        }
        if registry::is_held(back, id, claims[n - 1]) {
            let t = registry::task_of(back, id);
            let i = registry::task_position(back, id);
            assert(registry::task_at(back, id, i));
            others_stay_with(back, id, registry::released(t), other);
        }
    }
}

/// Of deliveries that are confirmed together, each whose task is there under the claim that
/// is given, or under any where none is given, is confirmed, and no other; the tasks of
/// agents that are not named stay as they were.
pub proof fn deliveries_are_confirmed_one_by_one(
    tasks: Seq<TaskModel>,
    ids: Seq<u128>,
    claims: Seq<Option<Seq<char>>>,
    n: int,
    k: int,
    other: u128,
)
    requires
        registry::agents_differ(tasks),
        0 <= k < n <= ids.len(),
        forall|i: int, j: int| 0 <= i < j < n ==> #[trigger] ids[i] != #[trigger] ids[j],
    ensures
        registry::completed_ids(tasks, ids, claims, n).contains(ids[k]) == (registry::has_task(
            tasks,
            ids[k],
        ) && (claims[k] is None || registry::task_of(tasks, ids[k]).delivery_claim == claims[k])),
        (forall|i: int| 0 <= i < n ==> #[trigger] ids[i] != other) && registry::has_task(
            tasks,
            other,
        ) ==> {
            let after = registry::after_completing(tasks, ids, claims, n);
            registry::has_task(after, other) && registry::task_of(after, other)
                == registry::task_of(tasks, other)
        },
    decreases n,
{
    if forall|i: int| 0 <= i < n ==> #[trigger] ids[i] != other {
        unnamed_tasks_stay(tasks, ids, claims, n, other);
    }
    let sofar = registry::completed_ids(tasks, ids, claims, n - 1);
    let all = registry::completed_ids(tasks, ids, claims, n);
    if k < n - 1 {
        deliveries_are_confirmed_one_by_one(tasks, ids, claims, n - 1, k, other);
        if sofar.contains(ids[k]) {
            let i = choose|i: int| 0 <= i < sofar.len() && sofar[i] == ids[k];
            assert(all[i] == ids[k]);
        }
        if all.contains(ids[k]) {
            let i = choose|i: int| 0 <= i < all.len() && all[i] == ids[k];
            assert(ids[k] != ids[n - 1]);
            assert(sofar[i] == ids[k]);
        }
    } else {
        assert forall|i: int| 0 <= i < n - 1 implies #[trigger] ids[i] != ids[k] by {
            assert(ids[i] != ids[n - 1]);
        }
        unnamed_tasks_stay(tasks, ids, claims, n - 1, ids[k]);
        completed_were_named(tasks, ids, claims, n - 1, ids[k]);
        let now = registry::after_completing(tasks, ids, claims, n - 1);
        if registry::is_held(now, ids[k], claims[k]) {
            assert(all[all.len() - 1] == ids[k]);
        }
    }
}

/// Only deliveries that are named are confirmed.
proof fn completed_were_named(
    tasks: Seq<TaskModel>,
    ids: Seq<u128>,
    claims: Seq<Option<Seq<char>>>,
    n: int,
    id: u128,
)
    requires
        forall|i: int| 0 <= i < n ==> #[trigger] ids[i] != id,
    ensures
        !registry::completed_ids(tasks, ids, claims, n).contains(id),
    decreases n,
{
    if n > 0 {
        completed_were_named(tasks, ids, claims, n - 1, id);
        let sofar = registry::completed_ids(tasks, ids, claims, n - 1);
        let all = registry::completed_ids(tasks, ids, claims, n);
        if all.contains(id) {
            let i = choose|i: int| 0 <= i < all.len() && all[i] == id;
            assert(ids[n - 1] != id);
            assert(sofar[i] == id);
        }
    }
}

/// Of claims that are released together, each whose task is there under the claim that is
/// given is released, and its task waits again or is given up; under another claim it stays
/// as it was, and so do the tasks of agents that are not named.
pub proof fn claims_are_released_one_by_one(
    tasks: Seq<TaskModel>,
    ids: Seq<u128>,
    claims: Seq<Option<Seq<char>>>,
    n: int,
    k: int,
    other: u128,
)
    requires
        registry::agents_differ(tasks),
        0 <= k < n <= ids.len(),
        forall|i: int, j: int| 0 <= i < j < n ==> #[trigger] ids[i] != #[trigger] ids[j],
        registry::has_task(tasks, ids[k]),
    ensures
        ({
            let after = registry::after_releasing(tasks, ids, claims, n);
            let before = registry::task_of(tasks, ids[k]);
            let now = registry::task_of(after, ids[k]);
            let held = claims[k] is None || before.delivery_claim == claims[k];
            &&& registry::has_task(after, ids[k])
            &&& now.result == before.result
            &&& !held ==> now == before
            &&& held ==> now.delivery_claim is None
            &&& held && before.delivery_attempts <= 8 ==> now.delivery_state
                == DeliveryState::Pending
            &&& held && before.delivery_attempts > 8 ==> now.delivery_state
                == DeliveryState::Dropped
            &&& (forall|i: int| 0 <= i < n ==> #[trigger] ids[i] != other) && registry::has_task(
                tasks,
                other,
            ) ==> registry::has_task(after, other) && registry::task_of(after, other)
                == registry::task_of(tasks, other)
        }),
    decreases n,
{
    if forall|i: int| 0 <= i < n ==> #[trigger] ids[i] != other {
        unnamed_tasks_stay(tasks, ids, claims, n, other);
    }
    let id = ids[n - 1];
    let now = registry::after_releasing(tasks, ids, claims, n - 1);
    if k < n - 1 {
        claims_are_released_one_by_one(tasks, ids, claims, n - 1, k, other);
        releasing_keeps_apart(tasks, ids, claims, n - 1);
        if registry::is_held(now, id, claims[n - 1]) {
            let t = registry::task_of(now, id);
            let i = registry::task_position(now, id);
            assert(registry::task_at(now, id, i));
            assert(ids[k] != ids[n - 1]);
            others_stay_with(now, id, registry::released(t), ids[k]);
        }
    } else {
        assert forall|i: int| 0 <= i < n - 1 implies #[trigger] ids[i] != ids[k] by {
            assert(ids[i] != ids[n - 1]);
        }
        unnamed_tasks_stay(tasks, ids, claims, n - 1, ids[k]);
        if registry::is_held(now, id, claims[n - 1]) {
            let t = registry::task_of(now, id);
            let i = registry::task_position(now, id);
            assert(registry::task_at(now, id, i));
            others_stay_with(now, id, registry::released(t), id);
        }
    }
}

/// Releasing claims keeps the agents apart.
proof fn releasing_keeps_apart(
    tasks: Seq<TaskModel>,
    ids: Seq<u128>,
    claims: Seq<Option<Seq<char>>>,
    n: int,
)
    requires
        registry::agents_differ(tasks),
    ensures
        registry::agents_differ(registry::after_releasing(tasks, ids, claims, n)),
    decreases n,
{
    if n > 0 {
        releasing_keeps_apart(tasks, ids, claims, n - 1);
        let now = registry::after_releasing(tasks, ids, claims, n - 1);
        let id = ids[n - 1];
        if registry::is_held(now, id, claims[n - 1]) {
            let t = registry::task_of(now, id);
            let i = registry::task_position(now, id);
            assert(registry::task_at(now, id, i));
            others_stay_with(now, id, registry::released(t), id);
        }
    }
}

} // verus!

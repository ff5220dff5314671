//! Tasks that run in the background and the states that they go through.
use vstd::prelude::*;

use crate::clock::Timestamp;
use crate::isolation::ActivitySummary;
use crate::llm::clone_opt;
use crate::result::{SubagentModel, SubagentResult};

verus! {

broadcast use crate::seqs::group_views;

/// Where background tasks are stored.
pub const PERSISTENCE_NAMESPACE: &'static str = "async_delegations";

/// With more attempts than that the delivery of a result is given up.
pub const MAX_DELIVERY_ATTEMPTS: u32 = 8;

/// How long a claim holds, in milliseconds.
pub const CLAIM_TTL_MS: u64 = 300_000;

/// How many seconds lie between two samples of an agent.
pub const HEARTBEAT_INTERVAL_SECS: u64 = 30;

/// After so many samples without progress an idle agent is stuck.
pub const STALE_CYCLES_IDLE: u32 = 15;

/// After so many samples without progress an agent that runs a tool is stuck.
pub const STALE_CYCLES_IN_TOOL: u32 = 40;

/// How many samples of a running task are kept.
pub const TRANSCRIPT_LENGTH: usize = 50;

/// The state of a background task.
#[derive(Debug, Clone, Copy, PartialEq, Eq, Structural)]
pub enum BackgroundTaskStatus {
    Running,
    /// The result is there and is being stored.
    Finalizing,
    Completed,
    Failed,
    /// Stopped because it was stuck.
    Stale,
    /// Left over from a process that has ended.
    Unknown,
}

/// The states that may follow a state.
pub open spec fn status_may_follow(
    from: BackgroundTaskStatus,
    to: BackgroundTaskStatus,
) -> bool {
    match from {
        BackgroundTaskStatus::Running => to == BackgroundTaskStatus::Finalizing || to
            == BackgroundTaskStatus::Stale || to == BackgroundTaskStatus::Unknown,
        BackgroundTaskStatus::Finalizing => to == BackgroundTaskStatus::Completed || to
            == BackgroundTaskStatus::Failed || to == BackgroundTaskStatus::Unknown,
        _ => false,
    }
}

/// A state that no other follows.
pub open spec fn is_final_status(status: BackgroundTaskStatus) -> bool {
    match status {
        BackgroundTaskStatus::Running => false,
        BackgroundTaskStatus::Finalizing => false,
        _ => true,
    }
}

impl BackgroundTaskStatus {
    /// Whether the other state may follow this one.
    pub fn can_transition_to(&self, next: &BackgroundTaskStatus) -> (r: bool)
        ensures
            r == status_may_follow(*self, *next),
    {
        match (*self, *next) {
            (BackgroundTaskStatus::Running, BackgroundTaskStatus::Finalizing) => true,
            (BackgroundTaskStatus::Running, BackgroundTaskStatus::Stale) => true,
            (BackgroundTaskStatus::Running, BackgroundTaskStatus::Unknown) => true,
            (BackgroundTaskStatus::Finalizing, BackgroundTaskStatus::Completed) => true,
            (BackgroundTaskStatus::Finalizing, BackgroundTaskStatus::Failed) => true,
            (BackgroundTaskStatus::Finalizing, BackgroundTaskStatus::Unknown) => true,
            _ => false,
        }
    }

    /// Whether no other state follows.
    pub fn is_terminal(&self) -> (r: bool)
        ensures
            r == is_final_status(*self),
    {
        match self {
            BackgroundTaskStatus::Running => false,
            BackgroundTaskStatus::Finalizing => false,
            _ => true,
        }
    }
}

/// The terminal states are exactly those that no other follows.
pub proof fn terminal_states_are_final(status: BackgroundTaskStatus)
    ensures
        is_final_status(status) == (forall|next: BackgroundTaskStatus|
            !status_may_follow(status, next)),
{
    if !is_final_status(status) {
        assert(status_may_follow(status, BackgroundTaskStatus::Unknown));
    }
}

/// How far the delivery of a result has come.
#[derive(Debug, Clone, Copy, PartialEq, Eq, Structural)]
pub enum DeliveryState {
    Pending,
    /// A session is taking it up.
    Claimed,
    Delivered,
    /// Given up.
    Dropped,
}

impl Default for DeliveryState {
    fn default() -> (r: Self)
        ensures
            r == DeliveryState::Pending,
    {
        DeliveryState::Pending
    }
}

/// Wakes a session to take up the results of its tasks.
pub trait SessionWaker {
    /// Wakes the session, without waiting for it.
    fn wake(&self, session_id: &str);
}

/// A sample of a running task.
#[derive(Debug, PartialEq, Eq)]
pub struct ActivitySnapshot {
    pub timestamp_ms: u64,
    pub iterations: u64,
    pub api_call_count: u64,
    pub current_tool: Option<String>,
    pub last_activity_ts: Option<String>,
}

/// What a sample is.
#[verifier::ext_equal]
pub struct SnapshotModel {
    pub timestamp_ms: u64,
    pub iterations: u64,
    pub api_call_count: u64,
    pub current_tool: Option<Seq<char>>,
    pub last_activity_ts: Option<Seq<char>>,
}

impl View for ActivitySnapshot {
    type V = SnapshotModel;

    open spec fn view(&self) -> SnapshotModel {
        SnapshotModel {
            timestamp_ms: self.timestamp_ms,
            iterations: self.iterations,
            api_call_count: self.api_call_count,
            current_tool: self.current_tool.deep_view(),
            last_activity_ts: self.last_activity_ts.deep_view(),
        }
    }
}

impl DeepView for ActivitySnapshot {
    type V = SnapshotModel;

    open spec fn deep_view(&self) -> SnapshotModel {
        self@
    }
}

impl Clone for ActivitySnapshot {
    fn clone(&self) -> (r: Self)
        ensures
            r@ == self@,
    {
        ActivitySnapshot {
            timestamp_ms: self.timestamp_ms,
            iterations: self.iterations,
            api_call_count: self.api_call_count,
            current_tool: clone_opt(&self.current_tool),
            last_activity_ts: clone_opt(&self.last_activity_ts),
        }
    }
}

/// The moment of an activity as text.
pub open spec fn activity_text(t: Option<Timestamp>) -> Option<Seq<char>> {
    match t {
        Some(m) => Some(m.text()),
        None => None,
    }
}

/// The sample of an agent at that moment.
pub open spec fn sample(summary: ActivitySummary, now_ms: u64) -> SnapshotModel {
    SnapshotModel {
        timestamp_ms: now_ms,
        iterations: summary.iterations,
        api_call_count: summary.api_call_count,
        current_tool: summary.current_tool.deep_view(),
        last_activity_ts: activity_text(summary.last_activity),
    }
}

impl ActivitySnapshot {
    /// The sample of an agent at that moment.
    pub fn from_summary(summary: &ActivitySummary, now_ms: u64) -> (r: Self)
        ensures
            r@ == sample(*summary, now_ms),
    {
        ActivitySnapshot {
            timestamp_ms: now_ms,
            iterations: summary.iterations,
            api_call_count: summary.api_call_count,
            current_tool: clone_opt(&summary.current_tool),
            last_activity_ts: match &summary.last_activity {
                Some(m) => Some(m.to_text()),
                None => None,
            },
        }
    }
}

/// A task that a sub-agent works on in the background.
#[derive(Debug, PartialEq, Eq)]
pub struct BackgroundTask {
    /// The batch that the task belongs to.
    pub delegation_id: u128,
    pub child_agent_id: u128,
    pub goal: String,
    pub status: BackgroundTaskStatus,
    pub parent_agent_id: u128,
    pub session_id: Option<String>,
    /// The session that the result goes to, before any other.
    pub origin_session_id: Option<String>,
    pub dispatched_at_ms: u64,
    pub completed_at_ms: Option<u64>,
    pub result: Option<SubagentResult>,
    /// The last samples, in order.
    pub live_transcript: Vec<ActivitySnapshot>,
    pub delivery_state: DeliveryState,
    pub delivery_attempts: u32,
    /// Who has claimed the result.
    pub delivery_claim: Option<String>,
    pub delivery_claimed_at_ms: Option<u64>,
    /// The process that the task belongs to.
    pub owner_instance_id: Option<String>,
    pub tenant_id: Option<String>,
    pub user_id: Option<String>,
}

/// What a background task is.
#[verifier::ext_equal]
pub struct TaskModel {
    pub delegation_id: u128,
    pub child_agent_id: u128,
    pub goal: Seq<char>,
    pub status: BackgroundTaskStatus,
    pub parent_agent_id: u128,
    pub session_id: Option<Seq<char>>,
    pub origin_session_id: Option<Seq<char>>,
    pub dispatched_at_ms: u64,
    pub completed_at_ms: Option<u64>,
    pub result: Option<SubagentModel>,
    pub live_transcript: Seq<SnapshotModel>,
    pub delivery_state: DeliveryState,
    pub delivery_attempts: u32,
    pub delivery_claim: Option<Seq<char>>,
    pub delivery_claimed_at_ms: Option<u64>,
    pub owner_instance_id: Option<Seq<char>>,
    pub tenant_id: Option<Seq<char>>,
    pub user_id: Option<Seq<char>>,
}

impl View for BackgroundTask {
    type V = TaskModel;

    open spec fn view(&self) -> TaskModel {
        TaskModel {
            delegation_id: self.delegation_id,
            child_agent_id: self.child_agent_id,
            goal: self.goal@,
            status: self.status,
            parent_agent_id: self.parent_agent_id,
            session_id: self.session_id.deep_view(),
            origin_session_id: self.origin_session_id.deep_view(),
            dispatched_at_ms: self.dispatched_at_ms,
            completed_at_ms: self.completed_at_ms,
            result: self.result.deep_view(),
            live_transcript: self.live_transcript.deep_view(),
            delivery_state: self.delivery_state,
            delivery_attempts: self.delivery_attempts,
            delivery_claim: self.delivery_claim.deep_view(),
            delivery_claimed_at_ms: self.delivery_claimed_at_ms,
            owner_instance_id: self.owner_instance_id.deep_view(),
            tenant_id: self.tenant_id.deep_view(),
            user_id: self.user_id.deep_view(),
        }
    }
}

impl DeepView for BackgroundTask {
    type V = TaskModel;

    open spec fn deep_view(&self) -> TaskModel {
        self@
    }
}

impl Clone for BackgroundTask {
    fn clone(&self) -> (r: Self)
        ensures
            r@ == self@,
    {
        let mut live_transcript: Vec<ActivitySnapshot> = Vec::new();
        let mut i: usize = 0;
        while i < self.live_transcript.len()
            invariant
                i <= self.live_transcript@.len(),
                live_transcript@.len() == i,
                forall|j: int|
                    0 <= j < i ==> (#[trigger] live_transcript@[j])@
                        == self.live_transcript@[j]@,
            decreases self.live_transcript@.len() - i,
        {
            live_transcript.push(self.live_transcript[i].clone());
            i += 1;
        }
        assert(live_transcript.deep_view() =~= self.live_transcript.deep_view());
        BackgroundTask {
            delegation_id: self.delegation_id,
            child_agent_id: self.child_agent_id,
            goal: self.goal.clone(),
            status: self.status,
            parent_agent_id: self.parent_agent_id,
            session_id: clone_opt(&self.session_id),
            origin_session_id: clone_opt(&self.origin_session_id),
            dispatched_at_ms: self.dispatched_at_ms,
            completed_at_ms: self.completed_at_ms,
            result: match &self.result {
                Some(r) => Some(r.clone()),
                None => None,
            },
            live_transcript,
            delivery_state: self.delivery_state,
            delivery_attempts: self.delivery_attempts,
            delivery_claim: clone_opt(&self.delivery_claim),
            delivery_claimed_at_ms: self.delivery_claimed_at_ms,
            owner_instance_id: clone_opt(&self.owner_instance_id),
            tenant_id: clone_opt(&self.tenant_id),
            user_id: clone_opt(&self.user_id),
        }
    }
}

/// A task that runs is ended by having its result or by being stuck, one whose result is
/// there by being completed or failed; a process that ends leaves either unknown. Nothing
/// else follows, and nothing follows those.
pub proof fn how_tasks_end(from: BackgroundTaskStatus, to: BackgroundTaskStatus)
    ensures
        status_may_follow(from, to) ==> from == BackgroundTaskStatus::Running || from
            == BackgroundTaskStatus::Finalizing,
        status_may_follow(BackgroundTaskStatus::Running, BackgroundTaskStatus::Finalizing),
        status_may_follow(BackgroundTaskStatus::Running, BackgroundTaskStatus::Stale),
        status_may_follow(BackgroundTaskStatus::Running, BackgroundTaskStatus::Unknown),
        !status_may_follow(BackgroundTaskStatus::Running, BackgroundTaskStatus::Completed),
        !status_may_follow(BackgroundTaskStatus::Running, BackgroundTaskStatus::Failed),
        status_may_follow(BackgroundTaskStatus::Finalizing, BackgroundTaskStatus::Completed),
        status_may_follow(BackgroundTaskStatus::Finalizing, BackgroundTaskStatus::Failed),
        status_may_follow(BackgroundTaskStatus::Finalizing, BackgroundTaskStatus::Unknown),
        !status_may_follow(BackgroundTaskStatus::Finalizing, BackgroundTaskStatus::Stale),
        !status_may_follow(from, BackgroundTaskStatus::Running),
        is_final_status(from) == (from != BackgroundTaskStatus::Running && from
            != BackgroundTaskStatus::Finalizing),
{
}

/// A sample says what the agent was doing and when it was taken.
pub proof fn a_sample_says_what_was_done(summary: ActivitySummary, now_ms: u64)
    ensures
        ({
            let s = sample(summary, now_ms);
            &&& s.timestamp_ms == now_ms
            &&& s.iterations == summary.iterations
            &&& s.api_call_count == summary.api_call_count
            &&& s.current_tool == summary.current_tool.deep_view()
            &&& s.last_activity_ts is Some == summary.last_activity is Some
        }),
{
}

} // verus!

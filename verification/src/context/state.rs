//! What is remembered from one compression to the next: the last summary, and how the
//! attempts to get one have gone.
use vstd::prelude::*;

use crate::clock;
use crate::clock::{deadline_after, Clock};
use crate::llm::clone_opt;

verus! {

/// After so many failures in a row no summary is asked for any more.
pub const TERMINAL_FAILURES: usize = 3;

/// Why there is no summary.
#[derive(Debug, PartialEq, Eq)]
pub enum CompressionFailure {
    /// The model returned nothing.
    Empty,
    /// The call failed.
    Error(String),
}

/// What the last compression did.
#[derive(Debug, Clone, Copy, PartialEq, Eq, Structural)]
pub struct CompressionStats {
    pub tool_outputs_pruned: usize,
    pub tool_outputs_deduped: usize,
    pub tail_outputs_demoted: usize,
    pub skill_results_pruned: usize,
    pub messages_before: usize,
    pub messages_after: usize,
    pub tokens_before: usize,
    pub tokens_after: usize,
    pub used_llm_summary: bool,
}

/// The statistics before any compression.
pub open spec fn no_stats() -> CompressionStats {
    CompressionStats {
        tool_outputs_pruned: 0,
        tool_outputs_deduped: 0,
        tail_outputs_demoted: 0,
        skill_results_pruned: 0,
        messages_before: 0,
        messages_after: 0,
        tokens_before: 0,
        tokens_after: 0,
        used_llm_summary: false,
    }
}

impl Default for CompressionStats {
    fn default() -> (r: Self)
        ensures
            r == no_stats(),
    {
        CompressionStats {
            tool_outputs_pruned: 0,
            tool_outputs_deduped: 0,
            tail_outputs_demoted: 0,
            skill_results_pruned: 0,
            messages_before: 0,
            messages_after: 0,
            tokens_before: 0,
            tokens_after: 0,
            used_llm_summary: false,
        }
    }
}

/// The state of compression as it is stored with a checkpoint. A cooling-down period
/// is stored as the whole seconds that are left of it.
#[derive(Debug, PartialEq, Eq)]
pub struct CompressionStateSnapshot {
    pub previous_summary: Option<String>,
    pub cooldown_remaining_secs: Option<u64>,
    pub consecutive_failures: usize,
    pub terminal_failure: bool,
}

/// What is stored of the state of compression.
#[verifier::ext_equal]
pub struct SnapshotModel {
    pub previous_summary: Option<Seq<char>>,
    pub cooldown_remaining_secs: Option<u64>,
    pub consecutive_failures: int,
    pub terminal_failure: bool,
}

impl View for CompressionStateSnapshot {
    type V = SnapshotModel;

    open spec fn view(&self) -> SnapshotModel {
        SnapshotModel {
            previous_summary: self.previous_summary.deep_view(),
            cooldown_remaining_secs: self.cooldown_remaining_secs,
            consecutive_failures: self.consecutive_failures as int,
            terminal_failure: self.terminal_failure,
        }
    }
}

impl DeepView for CompressionStateSnapshot {
    type V = SnapshotModel;

    open spec fn deep_view(&self) -> SnapshotModel {
        self@
    }
}

impl Clone for CompressionStateSnapshot {
    fn clone(&self) -> (r: Self)
        ensures
            r == *self,
    {
        CompressionStateSnapshot {
            previous_summary: clone_opt(&self.previous_summary),
            cooldown_remaining_secs: self.cooldown_remaining_secs,
            consecutive_failures: self.consecutive_failures,
            terminal_failure: self.terminal_failure,
        }
    }
}

impl Default for CompressionStateSnapshot {
    fn default() -> (r: Self)
        ensures
            r == (CompressionStateSnapshot {
                previous_summary: None,
                cooldown_remaining_secs: None,
                consecutive_failures: 0,
                terminal_failure: false,
            }),
    {
        CompressionStateSnapshot {
            previous_summary: None,
            cooldown_remaining_secs: None,
            consecutive_failures: 0,
            terminal_failure: false,
        }
    }
}

/// The state of compression.
#[derive(Debug)]
pub struct CompressionState {
    /// The last summary that was taken up.
    pub previous_summary: Option<String>,
    /// When, by the clock, the cooling-down period ends.
    pub cooldown_until: Option<u64>,
    /// The failures since the last success.
    pub consecutive_failures: usize,
    /// Whether summaries are no longer asked for.
    pub terminal_failure: bool,
    /// The clock that the state goes by.
    pub clock: Clock,
}

impl CompressionState {
    /// The state of a new session.
    pub open spec fn is_new(self) -> bool {
        &&& self.previous_summary is None
        &&& self.cooldown_until is None
        &&& self.consecutive_failures == 0
        &&& !self.terminal_failure
    }

    /// Whether the cooling-down period is still running at that moment.
    pub open spec fn cooling(self, now_ms: u64) -> bool {
        match self.cooldown_until {
            Some(until) => now_ms < until,
            None => false,
        }
    }

    /// Whether no summary is asked for at that moment.
    pub open spec fn skips(self, now_ms: u64) -> bool {
        self.terminal_failure || self.cooling(now_ms)
    }

    /// What is stored of the state at that moment.
    pub open spec fn stored(self, now_ms: u64) -> CompressionStateSnapshot {
        CompressionStateSnapshot {
            previous_summary: self.previous_summary,
            cooldown_remaining_secs: match self.cooldown_until {
                Some(until) if until > now_ms => Some(((until - now_ms) / 1000) as u64),
                _ => None,
            },
            consecutive_failures: self.consecutive_failures,
            terminal_failure: self.terminal_failure,
        }
    }

    /// Whether the state is what a stored one becomes at that moment.
    pub open spec fn is_restored(self, s: CompressionStateSnapshot, now_ms: u64) -> bool {
        &&& self.previous_summary == s.previous_summary
        &&& self.cooldown_until == match s.cooldown_remaining_secs {
            Some(secs) if secs > 0 => Some(clock::deadline(now_ms, secs)),
            _ => None,
        }
        &&& self.consecutive_failures == s.consecutive_failures
        &&& self.terminal_failure == s.terminal_failure
    }

    /// Whether the state is what another becomes by a failure at that moment.
    pub open spec fn is_failed(self, before: Self, now_ms: u64, cooldown_secs: u64) -> bool {
        &&& self.previous_summary == before.previous_summary
        &&& self.cooldown_until == Some(clock::deadline(now_ms, cooldown_secs))
        &&& self.consecutive_failures == before.consecutive_failures + 1
        &&& self.terminal_failure == (before.terminal_failure || self.consecutive_failures
            >= TERMINAL_FAILURES)
    }

    /// Whether the state is what any becomes by a success.
    pub open spec fn is_succeeded(self, summary: Seq<char>) -> bool {
        &&& self.previous_summary is Some
        &&& self.previous_summary->0@ == summary
        &&& self.cooldown_until is None
        &&& self.consecutive_failures == 0
        &&& !self.terminal_failure
    }

    /// The state of a new session.
    pub fn new() -> (r: Self)
        ensures
            r.is_new(),
    {
        CompressionState {
            previous_summary: None,
            cooldown_until: None,
            consecutive_failures: 0,
            terminal_failure: false,
            clock: Clock::start(),
        }
    }

    /// The current moment by the clock of the state.
    pub fn now_ms(&self) -> u64 {
        self.clock.now_ms()
    }

    /// What is stored of the state at that moment.
    pub fn snapshot_at(&self, now_ms: u64) -> (r: CompressionStateSnapshot)
        ensures
            r == self.stored(now_ms),
    {
        let cooldown_remaining_secs: Option<u64> = match self.cooldown_until {
            Some(until) => {
                if until > now_ms {
                    Some((until - now_ms) / 1000)
                } else {
                    None
                }
            },
            None => None,
        };
        CompressionStateSnapshot {
            previous_summary: clone_opt(&self.previous_summary),
            cooldown_remaining_secs,
            consecutive_failures: self.consecutive_failures,
            terminal_failure: self.terminal_failure,
        }
    }

    /// What is stored of the state now.
    pub fn snapshot(&self) -> (r: CompressionStateSnapshot)
        ensures
            exists|now_ms: u64| r == self.stored(now_ms),
    {
        let now: u64 = self.clock.now_ms();
        self.snapshot_at(now)
    }

    /// Takes a stored state up again. The clock of the new state is started at that
    /// moment, so that what is left of a cooling-down period counts from there.
    pub fn restore(snapshot: CompressionStateSnapshot) -> (r: Self)
        ensures
            exists|now_ms: u64| r.is_restored(snapshot, now_ms),
    {
        let clock = Clock::start();
        let now: u64 = clock.now_ms();
        let cooldown_until: Option<u64> = match snapshot.cooldown_remaining_secs {
            Some(secs) => {
                if secs > 0 {
                    Some(deadline_after(now, secs))
                } else {
                    None
                }
            },
            None => None,
        };
        let r = CompressionState {
            previous_summary: snapshot.previous_summary,
            cooldown_until,
            consecutive_failures: snapshot.consecutive_failures,
            terminal_failure: snapshot.terminal_failure,
            clock,
        };
        assert(r.is_restored(snapshot, now));
        r
    }

    /// Whether the cooling-down period is running at that moment.
    pub fn is_cooling_down_at(&self, now_ms: u64) -> (r: bool)
        ensures
            r == self.cooling(now_ms),
    {
        match self.cooldown_until {
            Some(until) => now_ms < until,
            None => false,
        }
    }

    /// Whether the cooling-down period is running.
    pub fn is_cooling_down(&self) -> (r: bool)
        ensures
            exists|now_ms: u64| r == self.cooling(now_ms),
            self.cooldown_until is None ==> !r,
    {
        let now: u64 = self.clock.now_ms();
        self.is_cooling_down_at(now)
    }

    /// Takes up a summary.
    pub fn mark_success(&mut self, summary: String)
        ensures
            final(self).is_succeeded(summary@),
    {
        self.previous_summary = Some(summary);
        self.consecutive_failures = 0;
        self.cooldown_until = None;
        self.terminal_failure = false;
    }

    /// Counts a failure at that moment and starts the cooling-down period.
    pub fn mark_failure_at(&mut self, now_ms: u64, cooldown_secs: u64)
        requires
            old(self).consecutive_failures < usize::MAX,
        ensures
            final(self).is_failed(*old(self), now_ms, cooldown_secs),
    {
        self.consecutive_failures = self.consecutive_failures + 1;
        self.cooldown_until = Some(deadline_after(now_ms, cooldown_secs));
        if self.consecutive_failures >= TERMINAL_FAILURES {
            self.terminal_failure = true;
        }
    }

    /// Counts a failure and starts the cooling-down period.
    pub fn mark_failure(&mut self, cooldown_secs: u64)
        requires
            old(self).consecutive_failures < usize::MAX,
        ensures
            exists|now_ms: u64| final(self).is_failed(*old(self), now_ms, cooldown_secs),
    {
        let ghost before = *self;
        let now: u64 = self.clock.now_ms();
        self.mark_failure_at(now, cooldown_secs);
        assert(self.is_failed(before, now, cooldown_secs));
    }

    /// Whether no summary is asked for at that moment.
    pub fn should_skip_llm_summary_at(&self, now_ms: u64) -> (r: bool)
        ensures
            r == self.skips(now_ms),
    {
        self.terminal_failure || self.is_cooling_down_at(now_ms)
    }

    /// Whether no summary is asked for.
    pub fn should_skip_llm_summary(&self) -> (r: bool)
        ensures
            exists|now_ms: u64| r == self.skips(now_ms),
            self.terminal_failure ==> r,
            !self.terminal_failure && self.cooldown_until is None ==> !r,
    {
        let now: u64 = self.clock.now_ms();
        self.should_skip_llm_summary_at(now)
    }

    /// Returns to the state of a new session.
    pub fn reset(&mut self)
        ensures
            final(self).is_new(),
    {
        self.previous_summary = None;
        self.cooldown_until = None;
        self.consecutive_failures = 0;
        self.terminal_failure = false;
    }
}

impl Default for CompressionState {
    fn default() -> (r: Self)
        ensures
            r.is_new(),
    {
        CompressionState::new()
    }
}

/// A state that is stored and restored keeps its summary and its failures, and cools
/// down for no longer than before and for less than a second shorter.
pub proof fn restoring_keeps_state(
    before: CompressionState,
    after: CompressionState,
    stored_at: u64,
    restored_at: u64,
    elapsed: u64,
)
    requires
        after.is_restored(before.stored(stored_at), restored_at),
        stored_at + elapsed <= u64::MAX,
        restored_at + elapsed <= u64::MAX,
        before.cooldown_until is Some ==> restored_at + (before.cooldown_until->0 - stored_at)
            <= u64::MAX,
    ensures
        after.previous_summary == before.previous_summary,
        after.consecutive_failures == before.consecutive_failures,
        after.terminal_failure == before.terminal_failure,
        after.cooling((restored_at + elapsed) as u64) ==> before.cooling(
            (stored_at + elapsed) as u64,
        ),
        before.cooldown_until is Some && stored_at + elapsed + 1000 <= before.cooldown_until->0
            ==> after.cooling((restored_at + elapsed) as u64),
{
}

/// A state that is restored cools down at that moment exactly when a whole second or more
/// of its cooling-down period was stored, and then the stored one was cooling down too.
/// At the last moment that the clock counts nothing cools down.
pub proof fn restoring_cools_down_as_stored(
    before: CompressionState,
    after: CompressionState,
    stored_at: u64,
    restored_at: u64,
)
    requires
        after.is_restored(before.stored(stored_at), restored_at),
        restored_at < u64::MAX,
    ensures
        after.previous_summary == before.previous_summary,
        after.consecutive_failures == before.consecutive_failures,
        after.terminal_failure == before.terminal_failure,
        after.cooling(restored_at) == (before.stored(stored_at).cooldown_remaining_secs matches Some(
            secs,
        ) && secs > 0),
        after.cooling(restored_at) ==> before.cooling(stored_at),
{
}

/// Three failures in a row end the asking for summaries, whatever the clock says;
/// fewer do not by themselves.
pub proof fn three_failures_are_terminal(
    s0: CompressionState,
    s1: CompressionState,
    s2: CompressionState,
    s3: CompressionState,
    t1: u64,
    t2: u64,
    t3: u64,
    c1: u64,
    c2: u64,
    c3: u64,
)
    requires
        s0.consecutive_failures == 0,
        !s0.terminal_failure,
        s1.is_failed(s0, t1, c1),
        s2.is_failed(s1, t2, c2),
        s3.is_failed(s2, t3, c3),
    ensures
        !s1.terminal_failure,
        !s2.terminal_failure,
        s3.terminal_failure,
        forall|now: u64| s3.skips(now),
{
}

/// A success ends the cooling-down period and lets summaries be asked for again,
/// whatever went before.
pub proof fn success_ends_failures(after: CompressionState, summary: Seq<char>)
    requires
        after.is_succeeded(summary),
    ensures
        forall|now: u64| !after.skips(now),
{
}

/// After a failure no summary is asked for until the cooling-down period is over, and then
/// one is asked for again unless the failures have become too many; what was summed up
/// before is kept. A new state asks at once.
pub proof fn a_failure_pauses_the_asking(
    before: CompressionState,
    after: CompressionState,
    fresh: CompressionState,
    failed_at: u64,
    cooldown_secs: u64,
    now: u64,
)
    requires
        after.is_failed(before, failed_at, cooldown_secs),
        failed_at + cooldown_secs * 1000 <= u64::MAX,
        fresh.is_new(),
    ensures
        now < failed_at + cooldown_secs * 1000 ==> after.skips(now),
        now >= failed_at + cooldown_secs * 1000 && before.consecutive_failures < 2
            && !before.terminal_failure ==> !after.skips(now),
        after.previous_summary == before.previous_summary,
        !fresh.skips(now),
{
}

/// Of a pause as many whole seconds are stored as are left of it, and none of one that is
/// over; everything else is stored as it is.
pub proof fn what_is_left_of_a_pause_is_stored(s: CompressionState, now_ms: u64)
    ensures
        ({
            let kept = s.stored(now_ms);
            &&& s.cooldown_until is None ==> kept.cooldown_remaining_secs is None
            &&& s.cooldown_until matches Some(until) ==> {
                &&& until <= now_ms ==> kept.cooldown_remaining_secs is None
                &&& until > now_ms ==> (kept.cooldown_remaining_secs matches Some(secs) && 1000
                    * secs <= until - now_ms < 1000 * secs + 1000)
            }
            &&& kept.previous_summary == s.previous_summary
            &&& kept.consecutive_failures == s.consecutive_failures
            &&& kept.terminal_failure == s.terminal_failure
        }),
{
}

/// Before anything has been compressed there is nothing to report.
pub proof fn nothing_is_reported_at_first()
    ensures
        ({
            let s = no_stats();
            &&& s.tool_outputs_pruned == 0 && s.tool_outputs_deduped == 0
            &&& s.tail_outputs_demoted == 0 && s.skill_results_pruned == 0
            &&& s.messages_before == 0 && s.messages_after == 0
            &&& s.tokens_before == 0 && s.tokens_after == 0
            &&& !s.used_llm_summary
        }),
{
}

/// A new state has nothing behind it; a success leaves the summary that it gave, and no trace
/// of the failures before it.
pub proof fn what_a_state_remembers(
    fresh: CompressionState,
    after: CompressionState,
    summary: Seq<char>,
)
    requires
        fresh.is_new(),
        after.is_succeeded(summary),
    ensures
        fresh.previous_summary is None,
        fresh.cooldown_until is None,
        fresh.consecutive_failures == 0,
        !fresh.terminal_failure,
        after.previous_summary matches Some(s) && s@ == summary,
        after.cooldown_until is None,
        after.consecutive_failures == 0,
        !after.terminal_failure,
{
}

} // verus!

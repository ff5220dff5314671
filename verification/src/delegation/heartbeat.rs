//! Whether a sub-agent still makes progress.
//!
//! A parent samples its sub-agents at a fixed interval. One that shows no progress over
//! so many samples in a row is stuck and is stopped; one that runs a tool is given more
//! time.
use vstd::prelude::*;

use crate::clock::Timestamp;
use crate::delegation::types::{
    HEARTBEAT_INTERVAL_SECS, STALE_CYCLES_IDLE, STALE_CYCLES_IN_TOOL,
};
use crate::errors;
use crate::errors::debug_opt_text;
use crate::ids;
use crate::ids::id_to_text;
use crate::isolation::ActivitySummary;
use crate::llm::clone_opt;
use crate::text;
use crate::text::{decimal_text, same_text};

verus! {

broadcast use crate::seqs::group_views;

/// What was last seen of a sub-agent, and over how many samples it has not moved.
#[derive(Debug, PartialEq, Eq)]
pub struct Heartbeat {
    pub stale_count: u32,
    pub last_iterations: u64,
    pub last_tool: Option<String>,
    pub last_activity: Option<Timestamp>,
}

/// What was last seen of a sub-agent.
#[verifier::ext_equal]
pub struct HeartbeatModel {
    pub stale_count: u32,
    pub last_iterations: u64,
    pub last_tool: Option<Seq<char>>,
    pub last_activity: Option<Timestamp>,
}

impl View for Heartbeat {
    type V = HeartbeatModel;

    open spec fn view(&self) -> HeartbeatModel {
        HeartbeatModel {
            stale_count: self.stale_count,
            last_iterations: self.last_iterations,
            last_tool: self.last_tool.deep_view(),
            last_activity: self.last_activity,
        }
    }
}

/// Nothing has been seen yet.
pub open spec fn unseen() -> HeartbeatModel {
    HeartbeatModel { stale_count: 0, last_iterations: 0, last_tool: None, last_activity: None }
}

/// The sample shows progress: more rounds, another tool, or a later activity.
pub open spec fn shows_progress(h: HeartbeatModel, s: ActivitySummary) -> bool {
    ||| s.iterations > h.last_iterations
    ||| s.current_tool.deep_view() != h.last_tool
    ||| match (s.last_activity, h.last_activity) {
        (Some(t), None) => true,
        (Some(t), Some(u)) => t.is_after(u),
        (None, _) => false,
    }
}

/// How many samples without progress make a sub-agent stuck.
pub open spec fn patience(s: ActivitySummary) -> u32 {
    if s.current_tool is Some {
        STALE_CYCLES_IN_TOOL
    } else {
        STALE_CYCLES_IDLE
    }
}

/// What is kept of a sample.
pub open spec fn after_sample(h: HeartbeatModel, s: ActivitySummary) -> HeartbeatModel {
    if shows_progress(h, s) {
        HeartbeatModel {
            stale_count: 0,
            last_iterations: s.iterations,
            last_tool: s.current_tool.deep_view(),
            last_activity: s.last_activity,
        }
    } else {
        HeartbeatModel { stale_count: (h.stale_count + 1) as u32, ..h }
    }
}

/// The sample makes the sub-agent stuck.
pub open spec fn is_stuck(h: HeartbeatModel, s: ActivitySummary) -> bool {
    !shows_progress(h, s) && h.stale_count + 1 >= patience(s)
}

/// For how many seconds a stuck sub-agent has not moved.
pub open spec fn stuck_secs(h: HeartbeatModel) -> int {
    (h.stale_count + 1) * HEARTBEAT_INTERVAL_SECS
}

/// The error of a stuck sub-agent; `who` says what it is.
pub open spec fn stuck_text(
    who: Seq<char>,
    agent_id: u128,
    secs: int,
    tool: Option<Seq<char>>,
) -> Seq<char> {
    who + " "@ + ids::id_text(agent_id) + " timed out (stuck for "@ + text::decimal(secs as nat)
        + "s, no progress, tool="@ + errors::debug_opt(tool) + ")"@
}

/// The two texts are the same, or neither is there.
fn same_opt(a: &Option<String>, b: &Option<String>) -> (r: bool)
    ensures
        r == (a.deep_view() == b.deep_view()),
{
    match (a, b) {
        (Some(x), Some(y)) => same_text(x.as_str(), y.as_str()),
        (None, None) => true,
        _ => false,
    }
}

impl Heartbeat {
    /// A stuck sub-agent is no longer sampled, so the count stays below the longest
    /// patience.
    pub open spec fn wf(self) -> bool {
        self.stale_count < STALE_CYCLES_IN_TOOL
    }

    /// Nothing has been seen yet.
    pub fn new() -> (r: Self)
        ensures
            r.wf(),
            r@ == unseen(),
    {
        Heartbeat { stale_count: 0, last_iterations: 0, last_tool: None, last_activity: None }
    }

    /// Whether the sample shows progress.
    pub fn advanced(&self, s: &ActivitySummary) -> (r: bool)
        ensures
            r == shows_progress(self@, *s),
    {
        let later = match (&s.last_activity, &self.last_activity) {
            (Some(_), None) => true,
            (Some(t), Some(u)) => t.after(u),
            (None, _) => false,
        };
        s.iterations > self.last_iterations || !same_opt(&s.current_tool, &self.last_tool)
            || later
    }

    /// Takes in a sample. Where it makes the sub-agent stuck, for how many seconds it has
    /// not moved; what was seen is then left as it was.
    pub fn observe(&mut self, s: &ActivitySummary) -> (r: Option<u64>)
        requires
            old(self).wf(),
        ensures
            final(self).wf(),
            match r {
                Some(secs) => is_stuck(old(self)@, *s) && secs == stuck_secs(old(self)@)
                    && final(self)@ == old(self)@,
                None => !is_stuck(old(self)@, *s) && final(self)@ == after_sample(
                    old(self)@,
                    *s,
                ),
            },
    {
        if self.advanced(s) {
            self.stale_count = 0;
            self.last_iterations = s.iterations;
            self.last_tool = clone_opt(&s.current_tool);
            self.last_activity = s.last_activity;
            return None;
        }
        let count: u32 = self.stale_count + 1;
        let threshold: u32 = if s.current_tool.is_some() {
            STALE_CYCLES_IN_TOOL
        } else {
            STALE_CYCLES_IDLE
        };
        if count >= threshold {
            return Some(count as u64 * HEARTBEAT_INTERVAL_SECS);
        }
        self.stale_count = count;
        None
    }
}

/// The error of a stuck sub-agent; `who` says what it is.
pub fn stuck_message(who: &str, agent_id: u128, secs: u64, tool: &Option<String>) -> (r: String)
    ensures
        r@ == stuck_text(who@, agent_id, secs as int, tool.deep_view()),
{
    let mut s = String::from_str(who);
    s.append(" ");
    s.append(id_to_text(agent_id).as_str());
    s.append(" timed out (stuck for ");
    s.append(decimal_text(secs).as_str());
    s.append("s, no progress, tool=");
    s.append(debug_opt_text(tool).as_str());
    s.append(")");
    s
}

/// Samples of one sub-agent, one after the other; the state that the last leaves, or
/// nothing where one of them made the sub-agent stuck.
pub open spec fn after_samples(
    h: HeartbeatModel,
    samples: Seq<ActivitySummary>,
) -> Option<HeartbeatModel>
    decreases samples.len(),
{
    if samples.len() == 0 {
        Some(h)
    } else {
        match after_samples(h, samples.drop_last()) {
            Some(g) => if is_stuck(g, samples.last()) {
                None
            } else {
                Some(after_sample(g, samples.last()))
            },
            None => None,
        }
    }
}

/// A sub-agent that moves with every sample is never stuck.
pub proof fn progress_keeps_alive(h: HeartbeatModel, s: ActivitySummary)
    requires
        shows_progress(h, s),
    ensures
        !is_stuck(h, s),
        after_sample(h, s).stale_count == 0,
{
}

/// A sub-agent that does not move at all is stuck once its patience is used up, and not
/// before.
pub proof fn standing_still_is_noticed(h: HeartbeatModel, s: ActivitySummary, n: nat)
    requires
        h.stale_count == 0,
        !shows_progress(h, s),
    ensures
        (after_samples(h, Seq::new(n, |i: int| s)) is None) == (n >= patience(s)),
        n < patience(s) ==> after_samples(h, Seq::new(n, |i: int| s)) == Some(
            HeartbeatModel { stale_count: n as u32, ..h },
        ),
    decreases n,
{
    let all = Seq::new(n, |i: int| s);
    if n > 0 {
        let m = (n - 1) as nat;
        assert(all.drop_last() =~= Seq::new(m, |i: int| s));
        standing_still_is_noticed(h, s, m);
        let g = HeartbeatModel { stale_count: m as u32, ..h };
        assert(shows_progress(g, s) == shows_progress(h, s));
    }
}

/// What is watched of the sub-agents in the background.
#[derive(Debug, PartialEq, Eq)]
pub struct StaleMonitor {
    pub beats: Vec<(u128, Heartbeat)>,
}

/// Where what was seen of an agent stands, at or after `i`.
pub open spec fn beat_from(beats: Seq<(u128, Heartbeat)>, id: u128, i: int) -> Option<int>
    decreases beats.len() - i,
{
    if i < 0 || i >= beats.len() {
        None
    } else if beats[i].0 == id {
        Some(i)
    } else {
        beat_from(beats, id, i + 1)
    }
}

/// What was seen of an agent.
pub open spec fn seen_of(beats: Seq<(u128, Heartbeat)>, id: u128) -> HeartbeatModel {
    match beat_from(beats, id, 0) {
        Some(i) => beats[i].1@,
        None => unseen(),
    }
}

/// What is found stands in its place.
proof fn beat_from_bounds(beats: Seq<(u128, Heartbeat)>, id: u128, i: int)
    requires
        0 <= i,
    ensures
        match beat_from(beats, id, i) {
            Some(k) => i <= k < beats.len() && beats[k].0 == id && (forall|j: int|
                i <= j < k ==> (#[trigger] beats[j]).0 != id),
            None => forall|j: int| i <= j < beats.len() ==> (#[trigger] beats[j]).0 != id,
        },
    decreases beats.len() - i,
{
    if i < beats.len() && beats[i].0 != id {
        beat_from_bounds(beats, id, i + 1);
    }
}

/// The first entry of an agent is the one that is found.
proof fn beat_from_first(beats: Seq<(u128, Heartbeat)>, id: u128, i: int, k: int)
    requires
        0 <= i <= k < beats.len(),
        beats[k].0 == id,
        forall|j: int| i <= j < k ==> (#[trigger] beats[j]).0 != id,
    ensures
        beat_from(beats, id, i) == Some(k),
    decreases k - i,
{
    if i < k {
        beat_from_first(beats, id, i + 1, k);
    }
}

/// Where no entry is of an agent, none is found.
proof fn beat_from_none(beats: Seq<(u128, Heartbeat)>, id: u128, i: int)
    requires
        0 <= i,
        forall|j: int| i <= j < beats.len() ==> (#[trigger] beats[j]).0 != id,
    ensures
        beat_from(beats, id, i) is None,
    decreases beats.len() - i,
{
    if i < beats.len() {
        beat_from_none(beats, id, i + 1);
    }
}

impl StaleMonitor {
    /// No agent has two entries, and none that is stuck has one.
    pub open spec fn wf(self) -> bool {
        &&& forall|i: int| 0 <= i < self.beats@.len() ==> (#[trigger] self.beats@[i]).1.wf()
        &&& forall|i: int, j: int|
            0 <= i < j < self.beats@.len() ==> (#[trigger] self.beats@[i]).0 != (
            #[trigger] self.beats@[j]).0
    }

    /// What was seen of an agent.
    pub open spec fn seen(self, id: u128) -> HeartbeatModel {
        seen_of(self.beats@, id)
    }

    /// Nothing is watched yet.
    pub fn new() -> (r: Self)
        ensures
            r.wf(),
            forall|id: u128| #[trigger] r.seen(id) == unseen(),
    {
        StaleMonitor { beats: Vec::new() }
    }

    /// Where what was seen of an agent stands.
    fn find(&self, id: u128) -> (r: Option<usize>)
        ensures
            match r {
                Some(i) => i < self.beats@.len() && beat_from(self.beats@, id, 0) == Some(
                    i as int,
                ) && self.beats@[i as int].0 == id,
                None => beat_from(self.beats@, id, 0) is None,
            },
    {
        let mut i: usize = 0;
        while i < self.beats.len()
            invariant
                i <= self.beats@.len(),
                beat_from(self.beats@, id, 0) == beat_from(self.beats@, id, i as int),
            decreases self.beats@.len() - i,
        {
            if self.beats[i].0 == id {
                return Some(i);
            }
            i += 1;
        }
        None
    }

    /// Takes in a sample of an agent. Where it makes the agent stuck, the error to mark
    /// it with; the agent is then no longer watched. What was seen of other agents
    /// stays.
    pub fn observe(&mut self, id: u128, s: &ActivitySummary) -> (r: Option<String>)
        requires
            old(self).wf(),
        ensures
            final(self).wf(),
            match r {
                Some(text) => is_stuck(old(self).seen(id), *s) && final(self).seen(id)
                    == unseen() && text@ == stuck_text(
                    "background agent"@,
                    id,
                    stuck_secs(old(self).seen(id)),
                    s.current_tool.deep_view(),
                ),
                None => !is_stuck(old(self).seen(id), *s) && final(self).seen(id)
                    == after_sample(old(self).seen(id), *s),
            },
            forall|other: u128|
                other != id ==> #[trigger] final(self).seen(other) == old(self).seen(other),
    {
        let ghost before = self.beats@;
        match self.find(id) {
            Some(i) => {
                let (_, mut beat) = self.beats.remove(i);
                let ghost rest = self.beats@;
                assert(rest =~= before.remove(i as int));
                let outcome = beat.observe(s);
                match outcome {
                    Some(secs) => {
                        proof {
                            Self::removed(before, i as int);
                        }
                        Some(stuck_message("background agent", id, secs, &s.current_tool))
                    },
                    None => {
                        self.beats.push((id, beat));
                        proof {
                            Self::removed(before, i as int);
                            Self::added(rest, (id, beat));
                        }
                        None
                    },
                }
            },
            None => {
                let mut beat = Heartbeat::new();
                let outcome = beat.observe(s);
                match outcome {
                    Some(secs) => Some(
                        stuck_message("background agent", id, secs, &s.current_tool),
                    ),
                    None => {
                        self.beats.push((id, beat));
                        proof {
                            Self::added(before, (id, beat));
                        }
                        None
                    },
                }
            },
        }
    }

    /// Leaving out an entry leaves what was seen of the other agents.
    proof fn removed(beats: Seq<(u128, Heartbeat)>, i: int)
        requires
            0 <= i < beats.len(),
            forall|a: int, b: int|
                0 <= a < b < beats.len() ==> (#[trigger] beats[a]).0 != (#[trigger] beats[b]).0,
        ensures
            ({
                let rest = beats.remove(i);
                &&& beat_from(rest, beats[i].0, 0) is None
                &&& forall|other: u128|
                    other != beats[i].0 ==> #[trigger] seen_of(rest, other) == seen_of(
                        beats,
                        other,
                    )
                &&& forall|a: int, b: int|
                    0 <= a < b < rest.len() ==> (#[trigger] rest[a]).0 != (#[trigger] rest[b]).0
            }),
    {
        let rest = beats.remove(i);
        assert forall|a: int, b: int| 0 <= a < b < rest.len() implies (#[trigger] rest[a]).0 != (
        #[trigger] rest[b]).0 by {
            let x = if a < i { a } else { a + 1 };
            let y = if b < i { b } else { b + 1 };
            assert(beats[x].0 != beats[y].0);
        }
        assert forall|j: int| 0 <= j < rest.len() implies (#[trigger] rest[j]).0 != beats[i].0 by {
            let x = if j < i { j } else { j + 1 };
            if x < i {
                assert(beats[x].0 != beats[i].0);
            } else {
                assert(beats[i].0 != beats[x].0);
            }
        }
        beat_from_none(rest, beats[i].0, 0);
        assert forall|other: u128| other != beats[i].0 implies #[trigger] seen_of(rest, other)
            == seen_of(beats, other) by {
            beat_from_bounds(beats, other, 0);
            match beat_from(beats, other, 0) {
                Some(k) => {
                    let x = if k < i { k } else { k - 1 };
                    assert(rest[x] == beats[k]);
                    assert forall|j: int| 0 <= j < x implies (#[trigger] rest[j]).0 != other by {
                        let y = if j < i { j } else { j + 1 };
                        assert(rest[j] == beats[y]);
                    }
                    beat_from_first(rest, other, 0, x);
                },
                None => {
                    assert forall|j: int| 0 <= j < rest.len() implies (#[trigger] rest[j]).0
                        != other by {
                        let y = if j < i { j } else { j + 1 };
                        assert(rest[j] == beats[y]);
                    }
                    beat_from_none(rest, other, 0);
                },
            }
        }
    }

    /// Adding an entry of an agent that has none leaves what was seen of the others.
    proof fn added(beats: Seq<(u128, Heartbeat)>, e: (u128, Heartbeat))
        requires
            beat_from(beats, e.0, 0) is None,
        ensures
            seen_of(beats.push(e), e.0) == e.1@,
            forall|other: u128|
                other != e.0 ==> #[trigger] seen_of(beats.push(e), other) == seen_of(
                    beats,
                    other,
                ),
            forall|j: int| 0 <= j < beats.len() ==> (#[trigger] beats[j]).0 != e.0,
    {
        let all = beats.push(e);
        beat_from_bounds(beats, e.0, 0);
        beat_from_first(all, e.0, 0, beats.len() as int);
        assert forall|other: u128| other != e.0 implies #[trigger] seen_of(all, other) == seen_of(
            beats,
            other,
        ) by {
            beat_from_bounds(beats, other, 0);
            match beat_from(beats, other, 0) {
                Some(k) => {
                    assert(all[k] == beats[k]);
                    assert forall|j: int| 0 <= j < k implies (#[trigger] all[j]).0 != other by {
                        assert(all[j] == beats[j]);
                    }
                    beat_from_first(all, other, 0, k);
                },
                None => {
                    assert forall|j: int| 0 <= j < all.len() implies (#[trigger] all[j]).0
                        != other by {
                        if j < beats.len() {
                            assert(all[j] == beats[j]);
                        }
                    }
                    beat_from_none(all, other, 0);
                },
            }
        }
    }
}

/// A sub-agent goes forward where it has had more rounds, is at another tool, or has been
/// active since; otherwise it stands still, and one more standing still is counted.
pub proof fn what_counts_as_going_forward(h: HeartbeatModel, s: ActivitySummary)
    requires
        h.stale_count < 40,
    ensures
        s.iterations > h.last_iterations ==> shows_progress(h, s),
        s.current_tool.deep_view() != h.last_tool ==> shows_progress(h, s),
        s.last_activity is Some && h.last_activity is None ==> shows_progress(h, s),
        s.last_activity matches Some(t) ==> (h.last_activity matches Some(u) ==> (t.is_after(u)
            ==> shows_progress(h, s))),
        s.iterations <= h.last_iterations && s.current_tool.deep_view() == h.last_tool && (
        s.last_activity matches Some(t) ==> (h.last_activity matches Some(u) && !t.is_after(u)))
            ==> {
            &&& !shows_progress(h, s)
            &&& after_sample(h, s).stale_count == h.stale_count + 1
            &&& after_sample(h, s).last_iterations == h.last_iterations
            &&& after_sample(h, s).last_activity == h.last_activity
        },
        shows_progress(h, s) ==> {
            &&& after_sample(h, s).last_iterations == s.iterations
            &&& after_sample(h, s).last_tool == s.current_tool.deep_view()
            &&& after_sample(h, s).last_activity == s.last_activity
        },
{
}

/// A sub-agent is given up where it has stood still fifteen times in a row, or forty times at
/// a tool, thirty seconds each; whoever waits is told which one it was and how long.
pub proof fn how_long_standing_still_is_borne(
    h: HeartbeatModel,
    s: ActivitySummary,
    who: Seq<char>,
    id: u128,
)
    ensures
        !shows_progress(h, s) && s.current_tool is None ==> is_stuck(h, s) == (h.stale_count + 1
            >= 15),
        !shows_progress(h, s) && s.current_tool is Some ==> is_stuck(h, s) == (h.stale_count + 1
            >= 40),
        stuck_secs(h) == 30 * (h.stale_count + 1),
        text::contains(
            stuck_text(who, id, stuck_secs(h), s.current_tool.deep_view()),
            ids::id_text(id),
        ),
        text::contains(
            stuck_text(who, id, stuck_secs(h), s.current_tool.deep_view()),
            text::decimal(stuck_secs(h) as nat),
        ),
        text::contains(
            stuck_text(who, id, stuck_secs(h), s.current_tool.deep_view()),
            "timed out"@,
        ),
{
    broadcast use text::group_parts;

    let secs = stuck_secs(h);
    let t = stuck_text(who, id, secs, s.current_tool.deep_view());
    assert(text::contains(t, ids::id_text(id)));
    assert(text::contains(t, text::decimal(secs as nat)));
    reveal_strlit(" timed out (stuck for ");
    reveal_strlit("timed out");
    let part = " timed out (stuck for "@;
    assert(part.subrange(1, 10) =~= "timed out"@);
    assert(text::occurs_at(part, "timed out"@, 1));
    assert(text::contains(part, "timed out"@));
    assert(text::contains(t, "timed out"@));
}

} // verus!

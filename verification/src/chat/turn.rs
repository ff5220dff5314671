//! The turns of a conversation: how they begin, and how they end.
use vstd::prelude::*;

use crate::agent_loop::types::AgentRunOutcome;
use crate::chat::delivery;
use crate::chat::delivery::{make_results_message, Delivery};
use crate::chat::events;
use crate::chat::events::{
    closing_events, failure_event, outcome_event, results_event, ChatEvent, ToldEvent,
};
use crate::delegation::listing;
use crate::delegation::listing::{cost_of, CostTotals};
use crate::delegation::manager;
use crate::delegation::manager::ToldResult;
use crate::delegation::types::{BackgroundTask, TaskModel};
use crate::errors::LoomError;
use crate::json::JsonModel;
use crate::llm::{ChatMessage, MessageModel, Role};
use crate::result::{ProgressEvent, SubagentResult};

verus! {

broadcast use crate::seqs::group_views;

/// What a turn begins with.
#[derive(Debug, PartialEq, Eq)]
pub enum TurnStart {
    /// There is nothing to do.
    Rest,
    /// The conversation, to which results have come, is to be saved; the model is not
    /// asked.
    Deliver(Vec<ChatMessage>),
    /// The model is asked, with what was said before.
    Run(Option<Vec<ChatMessage>>),
}

/// What a turn begins with.
pub enum StartModel {
    Rest,
    Deliver(Seq<MessageModel>),
    Run(Option<Seq<MessageModel>>),
}

impl View for TurnStart {
    type V = StartModel;

    open spec fn view(&self) -> StartModel {
        match self {
            TurnStart::Rest => StartModel::Rest,
            TurnStart::Deliver(h) => StartModel::Deliver(h.deep_view()),
            TurnStart::Run(h) => StartModel::Run(h.deep_view()),
        }
    }
}

/// A conversation to which results have come.
pub open spec fn with_results(
    history: Option<Seq<MessageModel>>,
    results: Seq<ToldResult>,
    cost: Option<CostTotals>,
) -> Option<Seq<MessageModel>> {
    if results.len() == 0 {
        history
    } else {
        let message = delivery::results_message(results, cost);
        match history {
            Some(h) => Some(h.push(message)),
            None => Some(seq![message]),
        }
    }
}

/// What a turn begins with: results that have come are part of the conversation, and an
/// empty message only wakes it.
pub open spec fn turn_start(
    goal: Seq<char>,
    history: Option<Seq<MessageModel>>,
    results: Seq<ToldResult>,
    cost: CostTotals,
) -> StartModel {
    let known = with_results(history, results, Some(cost));
    if goal.len() > 0 {
        StartModel::Run(known)
    } else if results.len() > 0 {
        StartModel::Deliver(known->0)
    } else {
        StartModel::Rest
    }
}

/// What those tasks have cost together, where it can be counted.
pub open spec fn totals(tasks: Seq<TaskModel>) -> CostTotals {
    CostTotals {
        duration_ms: listing::total_duration(tasks) as u64,
        iterations: listing::total_iterations(tasks) as u64,
        tool_calls: listing::total_tool_calls(tasks) as u64,
    }
}

/// A turn that begins: what was claimed, what is told, and what is done.
#[derive(Debug, PartialEq, Eq)]
pub struct OpenedTurn {
    pub delivery: Delivery,
    pub event: Option<ChatEvent>,
    pub start: TurnStart,
}

/// Adds results that have come to a conversation.
fn push_results(
    history: Option<Vec<ChatMessage>>,
    results: &[(u128, String, SubagentResult)],
    cost: Option<CostTotals>,
) -> (r: Option<Vec<ChatMessage>>)
    ensures
        r.deep_view() == with_results(history.deep_view(), manager::told_all(results@), cost),
{
    if results.len() == 0 {
        return history;
    }
    let message = make_results_message(results, cost);
    let ghost m = message@;
    let mut h = match history {
        Some(h) => h,
        None => Vec::new(),
    };
    h.push(message);
    assert(history is None ==> h.deep_view() =~= seq![m]);
    Some(h)
}

/// Begins a turn of a conversation for which those tasks were claimed; nothing where their
/// costs cannot be counted.
pub fn open_turn(
    goal: &str,
    history: Option<Vec<ChatMessage>>,
    claimed: &[BackgroundTask],
) -> (r: Option<OpenedTurn>)
    ensures
        ({
            let tasks = claimed.deep_view();
            let results = manager::told_results(tasks);
            match r {
                Some(turn) => {
                    &&& listing::costs_fit(tasks)
                    &&& turn.delivery.is_of(tasks)
                    &&& turn.event.deep_view() == if results.len() > 0 {
                        Some(events::results_come(results, Some(totals(tasks))))
                    } else {
                        None
                    }
                    &&& turn.start@ == turn_start(
                        goal@,
                        history.deep_view(),
                        results,
                        totals(tasks),
                    )
                },
                None => !listing::costs_fit(tasks),
            }
        }),
{
    let ghost results = manager::told_results(claimed.deep_view());
    let cost = match cost_of(claimed) {
        Some(c) => c,
        None => {
            return None;
        },
    };
    assert(cost == totals(claimed.deep_view()));
    let delivery = Delivery::of(claimed);
    assert(results.len() == delivery.results@.len()) by {
        assert(manager::told_all(delivery.results@).len() == delivery.results@.len());
    }
    let event = if delivery.results.len() > 0 {
        Some(results_event(delivery.results.as_slice(), Some(cost)))
    } else {
        None
    };
    let known = push_results(history, delivery.results.as_slice(), Some(cost));
    let start = if goal.unicode_len() > 0 {
        TurnStart::Run(known)
    } else {
        match known {
            Some(h) if delivery.results.len() > 0 => TurnStart::Deliver(h),
            _ => TurnStart::Rest,
        }
    };
    Some(OpenedTurn { delivery, event, start })
}

/// Begins to take up a run for which those tasks were claimed: what was claimed, and what
/// is told of it.
pub fn open_resumption(claimed: &[BackgroundTask]) -> (r: (Delivery, Option<ChatEvent>))
    ensures
        ({
            let results = manager::told_results(claimed.deep_view());
            &&& r.0.is_of(claimed.deep_view())
            &&& r.1.deep_view() == if results.len() > 0 {
                Some(events::results_come(results, None))
            } else {
                None
            }
        }),
{
    let delivery = Delivery::of(claimed);
    assert(manager::told_all(delivery.results@).len() == delivery.results@.len());
    let event = if delivery.results.len() > 0 {
        Some(results_event(delivery.results.as_slice(), None))
    } else {
        None
    };
    (delivery, event)
}

/// How a turn ends.
#[derive(Debug, PartialEq, Eq)]
pub enum TurnEnd {
    /// The conversation is to be saved before that is told.
    Save { history: Vec<ChatMessage>, events: Vec<ChatEvent> },
    /// Nothing is saved.
    Fail { events: Vec<ChatEvent> },
}

/// How a turn ends: with the conversation of the run, to which the results have come that
/// it did not know of.
pub open spec fn turn_end(
    outcome: Result<AgentRunOutcome, LoomError>,
    late: Seq<ToldResult>,
    session_id: Seq<char>,
) -> (Option<Seq<MessageModel>>, Seq<ToldEvent>) {
    match outcome {
        Ok(o) => (
            with_results(Some(o.messages()), late, None),
            events::closing(Some(events::outcome_told(o, session_id))),
        ),
        Err(e) => (None, events::closing(Some(events::failure_told(e.text(), session_id)))),
    }
}

impl TurnEnd {
    /// What is saved, and what is told.
    pub open spec fn view(self) -> (Option<Seq<MessageModel>>, Seq<ToldEvent>) {
        match self {
            TurnEnd::Save { history, events } => (Some(history.deep_view()), events.deep_view()),
            TurnEnd::Fail { events } => (None, events.deep_view()),
        }
    }
}

/// Ends a turn. Results that the run did not know of come to the conversation.
pub fn close_turn(
    outcome: Result<AgentRunOutcome, LoomError>,
    late: &[(u128, String, SubagentResult)],
    session_id: &str,
) -> (r: TurnEnd)
    ensures
        r.view() == turn_end(outcome, manager::told_all(late@), session_id@),
{
    match outcome {
        Err(e) => TurnEnd::Fail {
            events: closing_events(Some(failure_event(e.to_text().as_str(), session_id))),
        },
        Ok(o) => {
            let events = closing_events(Some(outcome_event(&o, session_id)));
            let mut history = match o {
                AgentRunOutcome::Finished(run) => run.history,
                AgentRunOutcome::Interrupt { history, .. } => history,
            };
            if late.len() > 0 {
                history.push(make_results_message(late, None));
            }
            TurnEnd::Save { history, events }
        },
    }
}

// ---------- laws ----------

/// An empty message asks no model, and any other does.
pub proof fn only_a_message_asks_the_model(
    goal: Seq<char>,
    history: Option<Seq<MessageModel>>,
    results: Seq<ToldResult>,
    cost: CostTotals,
)
    ensures
        (turn_start(goal, history, results, cost) is Run) == (goal.len() > 0),
{
}

/// Results that have come are the last of what the model is asked with or of what is
/// saved, behind all that was said before.
pub proof fn results_come_into_the_conversation(
    goal: Seq<char>,
    history: Seq<MessageModel>,
    results: Seq<ToldResult>,
    cost: CostTotals,
)
    requires
        results.len() > 0,
    ensures
        ({
            let known = history.push(delivery::results_message(results, Some(cost)));
            turn_start(goal, Some(history), results, cost) == if goal.len() > 0 {
                StartModel::Run(Some(known))
            } else {
                StartModel::Deliver(known)
            }
        }),
{
}

/// A turn is told to have ended once, and last: whatever was told before it, and however
/// it ends.
pub proof fn the_end_is_told_once(
    before: Seq<ToldEvent>,
    outcome: Result<AgentRunOutcome, LoomError>,
    late: Seq<ToldResult>,
    session_id: Seq<char>,
)
    requires
        forall|i: int| 0 <= i < before.len() ==> events::is_under_way(#[trigger] before[i]),
    ensures
        events::ends_once(before + turn_end(outcome, late, session_id).1),
        events::ends_once(before + events::closing(None)),
{
    reveal_strlit("done");
    reveal_strlit("thinking");
    reveal_strlit("resuming");
    reveal_strlit("background_results");
    reveal_strlit("progress");
    reveal_strlit("message");
    reveal_strlit("interrupt");
    reveal_strlit("error");
    let all = before + turn_end(outcome, late, session_id).1;
    assert forall|i: int| 0 <= i < all.len() implies ((#[trigger] all[i]).0 == "done"@) == (i
        == all.len() - 1) by {
        if i < before.len() {
            assert(events::is_under_way(before[i]));
            assert(all[i].0.len() != "done"@.len());
        } else if i == before.len() {
            match outcome {
                Ok(o) => {
                    assert(all[i] == events::outcome_told(o, session_id));
                    assert(all[i].0.len() != "done"@.len());
                },
                Err(e) => {
                    assert(all[i] == events::failure_told(e.text(), session_id));
                    assert(all[i].0.len() != "done"@.len());
                },
            }
        }
    }
    let rest = before + events::closing(None);
    assert forall|i: int| 0 <= i < rest.len() implies ((#[trigger] rest[i]).0 == "done"@) == (i
        == rest.len() - 1) by {
        if i < before.len() {
            assert(events::is_under_way(before[i]));
            assert(rest[i].0.len() != "done"@.len());
        }
    }
}

/// What is told of a turn before it ends is told under way.
pub proof fn turns_are_told_under_way(
    goal: Seq<char>,
    agent_id: u128,
    session_id: Seq<char>,
    checkpoint_id: Option<Seq<char>>,
    thread_id: Seq<char>,
    results: Seq<ToldResult>,
    cost: Option<CostTotals>,
    progress: ProgressEvent,
)
    ensures
        events::is_under_way(events::thinking(goal, agent_id, session_id)),
        events::is_under_way(events::resuming(checkpoint_id, thread_id, session_id)),
        events::is_under_way(events::results_come(results, cost)),
        events::is_under_way(events::progress_told(progress)),
{
}

/// Results that have come while a run was taken up are saved with it, behind all that was
/// said.
pub proof fn late_results_are_saved(
    outcome: AgentRunOutcome,
    late: Seq<ToldResult>,
    session_id: Seq<char>,
)
    requires
        late.len() > 0,
    ensures
        turn_end(Ok(outcome), late, session_id).0 == Some(
            outcome.messages().push(delivery::results_message(late, None)),
        ),
{
}

/// The results of sub-agents come behind what was said, as one message of the user, and
/// change nothing of it; without results nothing is added.
pub proof fn results_follow_what_was_said(
    history: Option<Seq<MessageModel>>,
    results: Seq<ToldResult>,
    cost: Option<CostTotals>,
)
    ensures
        results.len() == 0 ==> with_results(history, results, cost) == history,
        results.len() > 0 ==> {
            let before = match history {
                Some(h) => h,
                None => Seq::empty(),
            };
            &&& with_results(history, results, cost) matches Some(after)
            &&& after.len() == before.len() + 1
            &&& after.drop_last() == before
            &&& after.last().role == Role::User
            &&& after.last() == delivery::results_message(results, cost)
        },
{
    if results.len() > 0 {
        let before = match history {
            Some(h) => h,
            None => Seq::empty(),
        };
        assert(with_results(history, results, cost)->0.drop_last() =~= before);
    }
}

/// A turn without a message and without results does nothing; with results alone it delivers
/// them; with a message the model is asked, about what was said and the results.
pub proof fn what_a_turn_begins_with(
    goal: Seq<char>,
    history: Option<Seq<MessageModel>>,
    results: Seq<ToldResult>,
    cost: CostTotals,
)
    ensures
        goal.len() == 0 && results.len() == 0 ==> turn_start(goal, history, results, cost) is Rest,
        goal.len() == 0 && results.len() > 0 ==> turn_start(goal, history, results, cost)
            is Deliver,
        goal.len() > 0 && results.len() == 0 ==> turn_start(goal, history, results, cost)
            == StartModel::Run(history),
{
}

/// A turn that has ended is saved with all that was said in it, and its response, or what a
/// human is asked, is told under its session; a turn that failed is not saved, and its error
/// is told.
pub proof fn how_a_turn_ends(
    o: AgentRunOutcome,
    e: LoomError,
    late: Seq<ToldResult>,
    session_id: Seq<char>,
)
    ensures
        ({
            let (saved, told) = turn_end(Ok(o), late, session_id);
            let (lost, failed) = turn_end(Err(e), late, session_id);
            &&& saved matches Some(h) && h.len() >= o.messages().len() && h.take(
                o.messages().len() as int,
            ) == o.messages()
            &&& late.len() == 0 ==> saved == Some(o.messages())
            &&& told.len() == 2
            &&& told[0].1 matches Some(data)
            &&& data.get("session_id"@) == Some(JsonModel::Str(session_id))
            &&& o matches AgentRunOutcome::Finished(r) ==> told[0].0 == "message"@ && data.get(
                "text"@,
            ) == Some(JsonModel::Str(r.final_response@))
            &&& o matches AgentRunOutcome::Interrupt { value, checkpoint_id, thread_id, history }
                ==> told[0].0 == "interrupt"@ && data.get("value"@) == Some(value@) && data.get(
                "checkpoint_id"@,
            ) == Some(JsonModel::Str(checkpoint_id@)) && data.get("thread_id"@) == Some(
                JsonModel::Str(thread_id@),
            )
            &&& lost is None
            &&& failed.len() == 2
            &&& failed[0].0 == "error"@
            &&& failed[0].1 matches Some(data) && data.get("error"@) == Some(
                JsonModel::Str(e.text()),
            ) && data.get("session_id"@) == Some(JsonModel::Str(session_id))
        }),
{
    events::an_outcome_is_told(o, session_id);
    events::a_failure_is_told(e.text(), session_id);
    results_follow_what_was_said(Some(o.messages()), late, None);
    let saved = turn_end(Ok(o), late, session_id).0->0;
    if late.len() > 0 {
        assert(saved.take(o.messages().len() as int) =~= o.messages());
    } else {
        assert(saved.take(o.messages().len() as int) =~= o.messages());
    }
}

/// The costs of a turn are those of its tasks.
pub proof fn a_turn_costs_what_its_tasks_cost(tasks: Seq<TaskModel>)
    requires
        listing::costs_fit(tasks),
        0 <= listing::total_duration(tasks),
        0 <= listing::total_iterations(tasks),
        0 <= listing::total_tool_calls(tasks),
    ensures
        totals(tasks).duration_ms == listing::total_duration(tasks),
        totals(tasks).iterations == listing::total_iterations(tasks),
        totals(tasks).tool_calls == listing::total_tool_calls(tasks),
{
}

} // verus!

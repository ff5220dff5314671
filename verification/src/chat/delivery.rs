//! How the results of tasks in the background come into a conversation, each of them once.
use vstd::prelude::*;

use crate::delegation::listing::CostTotals;
use crate::delegation::manager;
use crate::delegation::manager::{results_of, DelegationManager, ToldResult};
use crate::delegation::registry;
use crate::delegation::types::{BackgroundTask, TaskModel};
use crate::ids;
use crate::ids::id_to_text;
use crate::llm;
use crate::llm::{clone_opt, ChatMessage, MessageModel, Role};
use crate::result::SubagentResult;
use crate::text;
use crate::text::{decimal_text, join_text};

verus! {

broadcast use crate::seqs::group_views;

/// What is said before the results.
pub const RESULTS_HEADING: &'static str =
    "Previously dispatched background sub-agent(s) have finished. Here are their results:\n\n";

/// What is said of how a task went.
pub open spec fn result_detail(r: ToldResult) -> Seq<char> {
    if r.2.success {
        r.2.summary
    } else {
        "error: "@ + match r.2.error_message {
            Some(m) => m,
            None => Seq::empty(),
        }
    }
}

/// What is said of one result.
pub open spec fn result_line(r: ToldResult) -> Seq<char> {
    "[background sub-agent "@ + ids::id_text(r.0) + " ("@ + r.1 + ") "@ + (if r.2.success {
        "completed"@
    } else {
        "failed"@
    }) + "]\n"@ + result_detail(r)
}

/// What is said of each result.
pub open spec fn result_lines(results: Seq<ToldResult>) -> Seq<Seq<char>> {
    results.map_values(|r: ToldResult| result_line(r))
}

/// What is said of all results.
pub open spec fn results_text(results: Seq<ToldResult>) -> Seq<char> {
    text::join(result_lines(results), "\n\n"@)
}

/// What is said of the costs.
pub open spec fn cost_line(c: CostTotals, n: nat) -> Seq<char> {
    "\n\n---\nAggregated cost: "@ + text::decimal(c.duration_ms as nat) + "ms duration, "@
        + text::decimal(c.iterations as nat) + " iterations, "@ + text::decimal(
        c.tool_calls as nat,
    ) + " tool calls across "@ + text::decimal(n) + " sub-agent(s)."@
}

/// The message that brings results into a conversation, with what they have cost where
/// that is said.
pub open spec fn results_message(results: Seq<ToldResult>, cost: Option<CostTotals>) -> MessageModel {
    llm::plain_message(
        Role::User,
        match cost {
            Some(c) => RESULTS_HEADING@ + (results_text(results) + cost_line(c, results.len())),
            None => RESULTS_HEADING@ + results_text(results),
        },
    )
}

/// What is said of one result.
fn make_result_line(r: &(u128, String, SubagentResult)) -> (s: String)
    ensures
        s@ == result_line(manager::told(*r)),
{
    let mut s = String::from_str("[background sub-agent ");
    s.append(id_to_text(r.0).as_str());
    s.append(" (");
    s.append(r.1.as_str());
    s.append(") ");
    if r.2.success {
        s.append("completed");
    } else {
        s.append("failed");
    }
    s.append("]\n");
    if r.2.success {
        s.append(r.2.summary.as_str());
    } else {
        let mut detail = String::from_str("error: ");
        match &r.2.error_message {
            Some(m) => {
                detail.append(m.as_str());
            },
            None => {
                assert(detail@ + Seq::<char>::empty() =~= detail@);
            },
        }
        s.append(detail.as_str());
    }
    s
}

/// What is said of all results.
fn make_results_text(results: &[(u128, String, SubagentResult)]) -> (r: String)
    ensures
        r@ == results_text(manager::told_all(results@)),
{
    let ghost all = manager::told_all(results@);
    let mut lines: Vec<String> = Vec::new();
    let mut i: usize = 0;
    while i < results.len()
        invariant
            i <= results@.len(),
            all == manager::told_all(results@),
            lines@.len() == i,
            forall|k: int| 0 <= k < i ==> (#[trigger] lines@[k])@ == result_line(all[k]),
        decreases results@.len() - i,
    {
        lines.push(make_result_line(&results[i]));
        i += 1;
    }
    assert(lines.deep_view() =~= result_lines(all));
    join_text(lines.as_slice(), "\n\n")
}

/// The message that brings results into a conversation.
pub fn make_results_message(
    results: &[(u128, String, SubagentResult)],
    cost: Option<CostTotals>,
) -> (r: ChatMessage)
    ensures
        r@ == results_message(manager::told_all(results@), cost),
{
    let mut body = make_results_text(results);
    if let Some(c) = cost {
        let mut line = String::from_str("\n\n---\nAggregated cost: ");
        line.append(decimal_text(c.duration_ms).as_str());
        line.append("ms duration, ");
        line.append(decimal_text(c.iterations).as_str());
        line.append(" iterations, ");
        line.append(decimal_text(c.tool_calls).as_str());
        line.append(" tool calls across ");
        line.append(decimal_text(results.len() as u64).as_str());
        line.append(" sub-agent(s).");
        body.append(line.as_str());
    }
    let mut s = String::from_str(RESULTS_HEADING);
    s.append(body.as_str());
    ChatMessage::user(s)
}

// ---------- what a conversation has claimed ----------

/// What a conversation has claimed: whose results, under which claims, and the results.
#[derive(Debug, PartialEq, Eq)]
pub struct Delivery {
    pub ids: Vec<u128>,
    pub claims: Vec<Option<String>>,
    pub results: Vec<(u128, String, SubagentResult)>,
}

/// The claims of those tasks.
pub open spec fn claims_of(tasks: Seq<TaskModel>) -> Seq<Option<Seq<char>>> {
    tasks.map_values(|t: TaskModel| t.delivery_claim)
}

impl Delivery {
    /// It is of those tasks.
    pub open spec fn is_of(self, tasks: Seq<TaskModel>) -> bool {
        &&& self.ids@ == manager::agent_ids(tasks)
        &&& self.claims.deep_view() == claims_of(tasks)
        &&& manager::told_all(self.results@) == manager::told_results(tasks)
    }

    /// What a conversation has claimed.
    pub fn of(claimed: &[BackgroundTask]) -> (r: Self)
        ensures
            r.is_of(claimed.deep_view()),
    {
        let mut ids: Vec<u128> = Vec::new();
        let mut claims: Vec<Option<String>> = Vec::new();
        let mut i: usize = 0;
        while i < claimed.len()
            invariant
                i <= claimed@.len(),
                ids@.len() == i,
                claims@.len() == i,
                forall|k: int| 0 <= k < i ==> ids@[k] == (#[trigger] claimed@[k]).child_agent_id,
                forall|k: int|
                    0 <= k < i ==> (#[trigger] claims@[k]).deep_view()
                        == claimed@[k].delivery_claim.deep_view(),
            decreases claimed@.len() - i,
        {
            ids.push(claimed[i].child_agent_id);
            claims.push(clone_opt(&claimed[i].delivery_claim));
            i += 1;
        }
        assert(ids@ =~= manager::agent_ids(claimed.deep_view()));
        assert(claims.deep_view() =~= claims_of(claimed.deep_view()));
        Delivery { ids, claims, results: results_of(claimed) }
    }

    /// Whether nothing was claimed.
    pub fn is_empty(&self) -> (r: bool)
        ensures
            r == (self.ids@.len() == 0),
    {
        self.ids.len() == 0
    }
}

/// What happens to the tasks that a conversation has claimed: they are forgotten where the
/// conversation that holds their results is saved, and can be claimed again where it is
/// not.
pub open spec fn settled(
    tasks: Seq<TaskModel>,
    ids: Seq<u128>,
    claims: Seq<Option<Seq<char>>>,
    saved: bool,
) -> Seq<TaskModel> {
    let n = registry::pair_count(ids.len(), claims.len());
    if saved {
        registry::after_completing(tasks, ids, claims, n)
    } else {
        registry::after_releasing(tasks, ids, claims, n)
    }
}

/// The agents whose tasks are no longer stored.
pub open spec fn forgotten(
    tasks: Seq<TaskModel>,
    ids: Seq<u128>,
    claims: Seq<Option<Seq<char>>>,
    saved: bool,
) -> Seq<u128> {
    let n = registry::pair_count(ids.len(), claims.len());
    if saved {
        registry::completed_ids(tasks, ids, claims, n)
    } else {
        registry::dropped_ids(tasks, ids, claims, n)
    }
}

impl DelegationManager {
    /// Forgets the tasks that a conversation has claimed where it is saved, and lets them
    /// be claimed again where it is not; the agents whose tasks are no longer to be stored.
    pub fn settle(&mut self, delivery: &Delivery, saved: bool) -> (r: Vec<u128>)
        requires
            old(self).registry.wf(),
        ensures
            final(self).registry.wf(),
            final(self).instance_id == old(self).instance_id,
            final(self).registry@ == settled(
                old(self).registry@,
                delivery.ids@,
                delivery.claims.deep_view(),
                saved,
            ),
            r@ == forgotten(
                old(self).registry@,
                delivery.ids@,
                delivery.claims.deep_view(),
                saved,
            ),
    {
        if saved {
            self.complete_background_delivery(delivery.ids.as_slice(), delivery.claims.as_slice())
        } else {
            self.release_background_delivery(delivery.ids.as_slice(), delivery.claims.as_slice())
        }
    }
}

// ---------- laws ----------

/// Every result that there is is among those that are told, in order.
pub proof fn every_result_is_told(tasks: Seq<TaskModel>, i: int)
    requires
        0 <= i < tasks.len(),
        tasks[i].result is Some,
    ensures
        manager::told_results(tasks).contains(
            (tasks[i].child_agent_id, tasks[i].goal, tasks[i].result->0),
        ),
    decreases tasks.len(),
{
    let before = manager::told_results(tasks.drop_last());
    let told = (tasks[i].child_agent_id, tasks[i].goal, tasks[i].result->0);
    if i < tasks.len() - 1 {
        assert(tasks.drop_last()[i] == tasks[i]);
        every_result_is_told(tasks.drop_last(), i);
        let k = choose|k: int| 0 <= k < before.len() && before[k] == told;
        assert(manager::told_results(tasks)[k] == told);
    } else {
        assert(manager::told_results(tasks)[before.len() as int] == told);
    }
}

/// Every result that is told stands in the message that brings it.
pub proof fn every_result_stands_in_the_message(
    results: Seq<ToldResult>,
    cost: Option<CostTotals>,
    i: int,
)
    requires
        0 <= i < results.len(),
    ensures
        text::contains(results_message(results, cost).text(), result_line(results[i])),
{
    let lines = result_lines(results);
    assert(lines[i] == result_line(results[i]));
    text::parts_stand_in_a_join(lines, "\n\n"@, i);
    let after = match cost {
        Some(c) => cost_line(c, results.len()),
        None => Seq::empty(),
    };
    text::a_part_stands_in_a_longer_text(
        RESULTS_HEADING@,
        results_text(results),
        after,
        result_line(results[i]),
    );
}

/// Those tasks are among the others, under the claims that they have there.
pub open spec fn are_claimed(tasks: Seq<TaskModel>, claimed: Seq<TaskModel>) -> bool {
    forall|i: int|
        0 <= i < claimed.len() ==> registry::is_held(
            tasks,
            (#[trigger] claimed[i]).child_agent_id,
            claimed[i].delivery_claim,
        )
}

/// Confirming deliveries changes no task that it leaves, and leaves none of those that
/// are confirmed.
proof fn confirmed_tasks_go(tasks: Seq<TaskModel>, claimed: Seq<TaskModel>, n: int)
    requires
        registry::agents_differ(tasks),
        are_claimed(tasks, claimed),
        0 <= n <= claimed.len(),
    ensures
        ({
            let after = registry::after_completing(
                tasks,
                manager::agent_ids(claimed),
                claims_of(claimed),
                n,
            );
            &&& registry::agents_differ(after)
            &&& forall|i: int| 0 <= i < after.len() ==> tasks.contains(#[trigger] after[i])
            &&& forall|i: int|
                0 <= i < n ==> !registry::has_task(after, (#[trigger] claimed[i]).child_agent_id)
        }),
    decreases n,
{
    let ids = manager::agent_ids(claimed);
    let claims = claims_of(claimed);
    if n == 0 {
        assert forall|i: int| 0 <= i < tasks.len() implies tasks.contains(#[trigger] tasks[i]) by {
        }
    } else {
        confirmed_tasks_go(tasks, claimed, n - 1);
        let now = registry::after_completing(tasks, ids, claims, n - 1);
        let after = registry::after_completing(tasks, ids, claims, n);
        let id = ids[n - 1];
        assert(id == claimed[n - 1].child_agent_id);
        if registry::has_task(now, id) {
            let k = registry::task_position(now, id);
            assert(registry::task_at(now, id, k));
            assert(tasks.contains(now[k]));
            let j = choose|j: int| 0 <= j < tasks.len() && tasks[j] == now[k];
            assert(registry::task_at(tasks, id, j));
            registry::position_is_unique(tasks, id, j);
            assert(registry::is_held(now, id, claims[n - 1]));
            registry::remove_keeps_apart(now, k);
            assert forall|i: int| 0 <= i < after.len() implies tasks.contains(
                #[trigger] after[i],
            ) by {
                let m = if i < k { i } else { i + 1 };
                assert(after[i] == now[m]);
            }
            assert forall|i: int| 0 <= i < n implies !registry::has_task(
                after,
                (#[trigger] claimed[i]).child_agent_id,
            ) by {
                let gone = claimed[i].child_agent_id;
                if registry::has_task(after, gone) {
                    let p = registry::task_position(after, gone);
                    assert(registry::task_at(after, gone, p));
                    let m = if p < k { p } else { p + 1 };
                    assert(registry::task_at(now, gone, m));
                    if i < n - 1 {
                        assert(!registry::has_task(now, claimed[i].child_agent_id));
                    } else {
                        registry::position_is_unique(now, id, m);
                    }
                }
            }
        } else {
            assert(after == now);
            assert forall|i: int| 0 <= i < n implies !registry::has_task(
                after,
                (#[trigger] claimed[i]).child_agent_id,
            ) by {
                if i < n - 1 {
                    assert(!registry::has_task(now, claimed[i].child_agent_id));
                }
            }
        }
    }
}

/// A result that a conversation holds when it is saved is not delivered again: there is no
/// task of its agent any more.
pub proof fn a_saved_result_is_delivered_once(
    tasks: Seq<TaskModel>,
    claimed: Seq<TaskModel>,
    k: int,
)
    requires
        registry::agents_differ(tasks),
        are_claimed(tasks, claimed),
        0 <= k < claimed.len(),
    ensures
        !registry::has_task(
            settled(tasks, manager::agent_ids(claimed), claims_of(claimed), true),
            claimed[k].child_agent_id,
        ),
{
    confirmed_tasks_go(tasks, claimed, claimed.len() as int);
}

/// Releasing claims removes no task and changes no result.
proof fn released_tasks_stay(
    tasks: Seq<TaskModel>,
    ids: Seq<u128>,
    claims: Seq<Option<Seq<char>>>,
    n: int,
)
    ensures
        ({
            let after = registry::after_releasing(tasks, ids, claims, n);
            &&& after.len() == tasks.len()
            &&& forall|i: int|
                0 <= i < tasks.len() ==> (#[trigger] after[i]).child_agent_id
                    == tasks[i].child_agent_id && after[i].result == tasks[i].result
                    && after[i].status == tasks[i].status && after[i].goal == tasks[i].goal
        }),
    decreases n,
{
    if n > 0 {
        released_tasks_stay(tasks, ids, claims, n - 1);
        let now = registry::after_releasing(tasks, ids, claims, n - 1);
        let after = registry::after_releasing(tasks, ids, claims, n);
        if registry::is_held(now, ids[n - 1], claims[n - 1]) {
            let k = registry::task_position(now, ids[n - 1]);
            assert(registry::task_at(now, ids[n - 1], k));
            assert forall|i: int| 0 <= i < tasks.len() implies (
            #[trigger] after[i]).child_agent_id == tasks[i].child_agent_id && after[i].result
                == tasks[i].result && after[i].status == tasks[i].status && after[i].goal
                == tasks[i].goal by {
                assert(now[i].child_agent_id == tasks[i].child_agent_id);
            }
        }
    }
}

/// A result is not lost where the conversation that holds it is not saved: the task is
/// still there, with its result.
pub proof fn an_unsaved_result_is_kept(
    tasks: Seq<TaskModel>,
    ids: Seq<u128>,
    claims: Seq<Option<Seq<char>>>,
    i: int,
)
    requires
        0 <= i < tasks.len(),
    ensures
        settled(tasks, ids, claims, false).len() == tasks.len(),
        settled(tasks, ids, claims, false)[i].child_agent_id == tasks[i].child_agent_id,
        settled(tasks, ids, claims, false)[i].result == tasks[i].result,
        settled(tasks, ids, claims, false)[i].status == tasks[i].status,
{
    released_tasks_stay(tasks, ids, claims, registry::pair_count(ids.len(), claims.len()));
}

/// What is said of a result names the agent and its goal, and gives its answer where it has
/// succeeded, or its error where it has not.
pub proof fn a_result_is_told_with_its_answer(r: ToldResult)
    ensures
        text::contains(result_line(r), ids::id_text(r.0)),
        text::contains(result_line(r), r.1),
        r.2.success ==> text::ends_with(result_line(r), r.2.summary),
        !r.2.success ==> (r.2.error_message matches Some(m) ==> text::ends_with(
            result_line(r),
            "error: "@ + m,
        )),
        r.2.success ==> text::contains(result_line(r), "completed"@),
        !r.2.success ==> text::contains(result_line(r), "failed"@),
{
    broadcast use text::group_parts;

    let l = result_line(r);
    let d = result_detail(r);
    assert(l.subrange(l.len() - d.len(), l.len() as int) =~= d);
    assert(text::contains(l, ids::id_text(r.0)));
    assert(text::contains(l, r.1));
    if r.2.success {
        assert(text::contains(l, "completed"@));
    } else {
        assert(text::contains(l, "failed"@));
    }
}

/// The message that delivers results is one of the user and holds the answer of every
/// sub-agent that has succeeded and the error of every other, with its goal.
pub proof fn every_answer_stands_in_the_message(
    results: Seq<ToldResult>,
    cost: Option<CostTotals>,
    i: int,
)
    requires
        0 <= i < results.len(),
    ensures
        ({
            let m = results_message(results, cost);
            &&& m.role == Role::User
            &&& text::contains(m.text(), results[i].1)
            &&& results[i].2.success ==> text::contains(m.text(), results[i].2.summary)
            &&& !results[i].2.success ==> (results[i].2.error_message matches Some(e)
                ==> text::contains(m.text(), e))
        }),
{
    broadcast use text::group_parts;

    let r = results[i];
    let m = results_message(results, cost).text();
    let l = result_line(r);
    every_result_stands_in_the_message(results, cost, i);
    a_result_is_told_with_its_answer(r);
    text::a_part_of_a_part(m, l, r.1);
    if r.2.success {
        assert(text::occurs_at(l, r.2.summary, l.len() - r.2.summary.len()));
        text::a_part_of_a_part(m, l, r.2.summary);
    } else if let Some(e) = r.2.error_message {
        let told = "error: "@ + e;
        assert(text::occurs_at(l, told, l.len() - told.len()));
        assert(text::contains(told, e));
        text::a_part_of_a_part(m, l, told);
        text::a_part_of_a_part(m, told, e);
    }
}

/// What results have cost is told in numbers.
pub proof fn costs_are_told(c: CostTotals, n: nat)
    ensures
        text::contains(cost_line(c, n), text::decimal(c.duration_ms as nat) + "ms duration, "@),
        text::contains(cost_line(c, n), text::decimal(c.iterations as nat) + " iterations, "@),
        text::contains(
            cost_line(c, n),
            text::decimal(c.tool_calls as nat) + " tool calls across "@,
        ),
        text::contains(cost_line(c, n), text::decimal(n) + " sub-agent(s)."@),
{
    broadcast use text::group_parts;

    let a = "\n\n---\nAggregated cost: "@;
    let p = text::decimal(c.duration_ms as nat) + "ms duration, "@;
    let q = text::decimal(c.iterations as nat) + " iterations, "@;
    let r = text::decimal(c.tool_calls as nat) + " tool calls across "@;
    let s = text::decimal(n) + " sub-agent(s)."@;
    assert(cost_line(c, n) =~= a + p + q + r + s);
    let all = a + p + q + r + s;
    assert(text::contains(all, p));
    assert(text::contains(all, q));
    assert(text::contains(all, r));
    assert(text::contains(all, s));
}

/// What becomes of a delivery depends on whether the conversation was saved: then it is
/// confirmed, and otherwise it is given back.
pub proof fn a_delivery_is_settled(
    tasks: Seq<TaskModel>,
    ids: Seq<u128>,
    claims: Seq<Option<Seq<char>>>,
)
    requires
        ids.len() == claims.len(),
    ensures
        settled(tasks, ids, claims, true) == registry::after_completing(
            tasks,
            ids,
            claims,
            ids.len() as int,
        ),
        settled(tasks, ids, claims, false) == registry::after_releasing(
            tasks,
            ids,
            claims,
            ids.len() as int,
        ),
        forgotten(tasks, ids, claims, true) == registry::completed_ids(
            tasks,
            ids,
            claims,
            ids.len() as int,
        ),
        forgotten(tasks, ids, claims, false) == registry::dropped_ids(
            tasks,
            ids,
            claims,
            ids.len() as int,
        ),
{
}

/// What is handed over of a task goes by its agent and its claim, in the order of the tasks.
pub proof fn a_delivery_is_of_its_tasks(d: Delivery, tasks: Seq<TaskModel>, i: int)
    requires
        d.is_of(tasks),
        0 <= i < tasks.len(),
    ensures
        d.ids@.len() == tasks.len(),
        d.ids@[i] == tasks[i].child_agent_id,
        d.claims.deep_view().len() == tasks.len(),
        d.claims.deep_view()[i] == tasks[i].delivery_claim,
        manager::told_all(d.results@) == manager::told_results(tasks),
{
}

} // verus!

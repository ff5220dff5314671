//! Which part of a conversation may be summarised.
//!
//! The head of a conversation and its tail are kept. Between them lies the window
//! that a summary may take the place of. The tail never begins with the result of a
//! tool, which would part it from the call that it answers, while there is another
//! message after it.
use vstd::prelude::*;

use crate::context::token;
use crate::context::token::estimate_tokens;
use crate::llm::{ChatMessage, MessageModel, Role};

verus! {

broadcast use crate::seqs::group_views;

/// How the tail of a conversation is measured.
#[derive(Debug, Clone, Copy, PartialEq, Eq, Structural)]
pub enum TailMode {
    /// By tokens.
    Lean,
    /// By messages.
    Legacy,
}

impl Default for TailMode {
    fn default() -> (r: Self)
        ensures
            r == TailMode::Lean,
    {
        TailMode::Lean
    }
}

/// The part of a conversation that a summary may take the place of.
#[derive(Debug, Clone, Copy, PartialEq, Eq, Structural)]
pub struct CompressWindow {
    /// Where the kept head ends.
    pub compress_start: usize,
    /// Where the kept tail begins.
    pub compress_end: usize,
}

/// How many system messages a conversation opens with.
pub open spec fn leading_system(msgs: Seq<MessageModel>) -> int
    decreases msgs.len(),
{
    if msgs.len() == 0 || msgs[0].role != Role::System {
        0
    } else {
        1 + leading_system(msgs.skip(1))
    }
}

/// The length of the kept head: the opening system messages and `protect_first_n`
/// messages after them, as far as there are any.
pub open spec fn head_size(msgs: Seq<MessageModel>, protect_first_n: int) -> int {
    let system = leading_system(msgs);
    if protect_first_n <= msgs.len() - system {
        system + protect_first_n
    } else {
        msgs.len() as int
    }
}

/// The opening system messages are part of the conversation.
pub proof fn leading_system_bounds(msgs: Seq<MessageModel>)
    ensures
        0 <= leading_system(msgs) <= msgs.len(),
        forall|i: int| 0 <= i < leading_system(msgs) ==> msgs[i].role == Role::System,
    decreases msgs.len(),
{
    if msgs.len() > 0 && msgs[0].role == Role::System {
        leading_system_bounds(msgs.skip(1));
        assert forall|i: int| 0 <= i < leading_system(msgs) implies msgs[i].role
            == Role::System by {
            if i > 0 {
                assert(msgs[i] == msgs.skip(1)[i - 1]);
            }
        }
    }
}

/// The length of the kept head.
pub fn protect_head_size(messages: &[ChatMessage], protect_first_n: usize) -> (r: usize)
    ensures
        r == head_size(messages.deep_view(), protect_first_n as int),
        r <= messages@.len(),
{
    let ghost msgs = messages.deep_view();
    let mut head: usize = 0;
    assert(msgs.skip(0) =~= msgs);
    while head < messages.len() && messages[head].role == Role::System
        invariant
            msgs == messages.deep_view(),
            head <= messages@.len(),
            leading_system(msgs) == head + leading_system(msgs.skip(head as int)),
        decreases messages@.len() - head,
    {
        assert(msgs.skip(head as int)[0] == messages@[head as int]@);
        assert(msgs.skip(head as int).skip(1) =~= msgs.skip(head + 1));
        head += 1;
    }
    assert(head < messages@.len() ==> msgs.skip(head as int)[0] == messages@[head as int]@);
    if protect_first_n <= messages.len() - head {
        head + protect_first_n
    } else {
        messages.len()
    }
}

/// The first position from `i` on that holds no result of a tool.
pub open spec fn first_non_tool(msgs: Seq<MessageModel>, i: int) -> int
    decreases msgs.len() - i,
{
    if i < 0 || i >= msgs.len() || msgs[i].role != Role::Tool {
        i
    } else {
        first_non_tool(msgs, i + 1)
    }
}

/// The boundary moved on past the results of tools; left where it is if nothing else
/// follows.
pub open spec fn snapped(msgs: Seq<MessageModel>, i: int) -> int {
    let j = first_non_tool(msgs, i);
    if j < msgs.len() {
        j
    } else {
        i
    }
}

/// The boundary moves on only past results of tools.
pub proof fn first_non_tool_bounds(msgs: Seq<MessageModel>, i: int)
    requires
        0 <= i <= msgs.len(),
    ensures
        i <= first_non_tool(msgs, i) <= msgs.len(),
        forall|k: int| i <= k < first_non_tool(msgs, i) ==> msgs[k].role == Role::Tool,
        first_non_tool(msgs, i) < msgs.len() ==> msgs[first_non_tool(msgs, i)].role
            != Role::Tool,
    decreases msgs.len() - i,
{
    if i < msgs.len() && msgs[i].role == Role::Tool {
        first_non_tool_bounds(msgs, i + 1);
    }
}

/// Moves a boundary on past the results of tools, as far as `max_idx`.
pub fn snap_boundary_forward(messages: &[ChatMessage], idx: usize, max_idx: usize) -> (r: usize)
    requires
        idx <= max_idx <= messages@.len(),
    ensures
        r == snapped(messages.deep_view().take(max_idx as int), idx as int),
        idx <= r <= max_idx,
{
    let ghost msgs = messages.deep_view().take(max_idx as int);
    let mut i: usize = idx;
    while i < max_idx && messages[i].role == Role::Tool
        invariant
            max_idx <= messages@.len(),
            msgs == messages.deep_view().take(max_idx as int),
            idx <= i <= max_idx,
            first_non_tool(msgs, idx as int) == first_non_tool(msgs, i as int),
        decreases max_idx - i,
    {
        assert(msgs[i as int] == messages@[i as int]@);
        i += 1;
    }
    assert(i < max_idx ==> msgs[i as int] == messages@[i as int]@);
    if i < max_idx {
        i
    } else {
        idx
    }
}

/// The tokens of the messages from `i` on, each estimated by itself.
pub open spec fn tail_tokens(msgs: Seq<MessageModel>, i: int) -> int
    decreases msgs.len() - i,
{
    if i < 0 || i >= msgs.len() {
        0
    } else {
        token::tokens_of(msgs.subrange(i, i + 1)) + tail_tokens(msgs, i + 1)
    }
}

/// How many user messages there are from `i` on.
pub open spec fn users_from(msgs: Seq<MessageModel>, i: int) -> int
    decreases msgs.len() - i,
{
    if i < 0 || i >= msgs.len() {
        0
    } else {
        users_from(msgs, i + 1) + if msgs[i].role == Role::User {
            1int
        } else {
            0int
        }
    }
}

/// Whether the tail that begins after `i` takes in the message at `i`: it still fits
/// the budget with it, or does not hold enough user messages yet.
pub open spec fn tail_takes(
    msgs: Seq<MessageModel>,
    budget: int,
    min_users: int,
    i: int,
) -> bool {
    tail_tokens(msgs, i) <= budget || users_from(msgs, i + 1) < min_users
}

/// The start of the longest tail, within the first `i` messages and those after
/// them, that takes in each of its messages.
pub open spec fn budget_start(
    msgs: Seq<MessageModel>,
    budget: int,
    min_users: int,
    i: int,
) -> int
    decreases i,
{
    if i <= 0 {
        0
    } else if !tail_takes(msgs, budget, min_users, i - 1) {
        i
    } else {
        budget_start(msgs, budget, min_users, i - 1)
    }
}

/// Where the tail begins that is measured by tokens.
pub open spec fn lean_tail_start(msgs: Seq<MessageModel>, budget: int, min_users: int) -> int {
    snapped(msgs, budget_start(msgs, budget, min_users, msgs.len() as int))
}

/// The tail takes in each of its messages, and stops at the first that it does not.
pub proof fn budget_start_is_longest(
    msgs: Seq<MessageModel>,
    budget: int,
    min_users: int,
    i: int,
)
    requires
        0 <= i <= msgs.len(),
    ensures
        ({
            let s = budget_start(msgs, budget, min_users, i);
            &&& 0 <= s <= i
            &&& forall|k: int| s <= k < i ==> tail_takes(msgs, budget, min_users, k)
            &&& s > 0 ==> !tail_takes(msgs, budget, min_users, s - 1)
        }),
    decreases i,
{
    if i > 0 && tail_takes(msgs, budget, min_users, i - 1) {
        budget_start_is_longest(msgs, budget, min_users, i - 1);
    }
}

/// Where the tail begins that is measured by tokens.
pub fn tail_start_by_budget(
    messages: &[ChatMessage],
    tail_token_budget: usize,
    min_tail_user_messages: usize,
) -> (r: usize)
    ensures
        r == lean_tail_start(
            messages.deep_view(),
            tail_token_budget as int,
            min_tail_user_messages as int,
        ),
        r <= messages@.len(),
{
    let ghost msgs = messages.deep_view();
    let ghost budget = tail_token_budget as int;
    let ghost min_users = min_tail_user_messages as int;
    let n: usize = messages.len();
    let mut tokens: u128 = 0;
    let mut user_count: usize = 0;
    let mut idx: usize = n;
    let mut stopped: bool = false;
    while idx > 0 && !stopped
        invariant
            msgs == messages.deep_view(),
            n == messages@.len(),
            budget == tail_token_budget,
            min_users == min_tail_user_messages,
            idx <= n,
            tokens == tail_tokens(msgs, idx as int),
            tokens <= (n - idx) * 0x1_0000_0000_0000_0000,
            user_count == users_from(msgs, idx as int),
            user_count <= n - idx,
            !stopped ==> budget_start(msgs, budget, min_users, n as int) == budget_start(
                msgs,
                budget,
                min_users,
                idx as int,
            ),
            stopped ==> budget_start(msgs, budget, min_users, n as int) == idx,
        decreases idx, !stopped as int,
    {
        let one = vstd::slice::slice_subrange(messages, idx - 1, idx);
        let msg_tokens: usize = estimate_tokens(one);
        let with: u128 = tokens + msg_tokens as u128;
        assert(one.deep_view() == msgs.subrange(idx - 1, idx as int));
        if with > tail_token_budget as u128 && user_count >= min_tail_user_messages {
            stopped = true;
        } else {
            idx -= 1;
            tokens = with;
            assert(msgs[idx as int] == messages@[idx as int]@);
            if messages[idx].role == Role::User {
                user_count += 1;
            }
        }
    }
    assert(messages.deep_view().take(n as int) =~= messages.deep_view());
    snap_boundary_forward(messages, idx, n)
}

/// The position of the `k`th user message from the end, counted among the messages
/// before `i`; none where there are fewer.
pub open spec fn user_from_end(msgs: Seq<MessageModel>, k: int, i: int) -> Option<int>
    decreases i,
{
    if i <= 0 || i > msgs.len() || k <= 0 {
        None
    } else if msgs[i - 1].role != Role::User {
        user_from_end(msgs, k, i - 1)
    } else if k == 1 {
        Some(i - 1)
    } else {
        user_from_end(msgs, k - 1, i - 1)
    }
}

/// Where the tail begins that is measured by messages: `protect_last_n` from the end,
/// or further back where more than `min_users` user messages are there and it would
/// not hold `min_users` of them.
pub open spec fn legacy_tail_start(
    msgs: Seq<MessageModel>,
    protect_last_n: int,
    min_users: int,
) -> int {
    let by_count = if protect_last_n <= msgs.len() {
        msgs.len() - protect_last_n
    } else {
        0
    };
    let start = if users_from(msgs, 0) > min_users {
        match user_from_end(msgs, min_users, msgs.len() as int) {
            Some(u) if u < by_count => u,
            _ => by_count,
        }
    } else {
        by_count
    };
    snapped(msgs, start)
}

/// The user message lies within the messages that were searched.
pub proof fn user_from_end_bounds(msgs: Seq<MessageModel>, k: int, i: int)
    ensures
        user_from_end(msgs, k, i) matches Some(u) ==> 0 <= u < i && u < msgs.len()
            && msgs[u].role == Role::User,
    decreases i,
{
    if !(i <= 0 || i > msgs.len() || k <= 0) {
        user_from_end_bounds(msgs, k, i - 1);
        user_from_end_bounds(msgs, k - 1, i - 1);
    }
}

/// How many user messages there are from `i` on.
fn count_users(messages: &[ChatMessage]) -> (r: usize)
    ensures
        r == users_from(messages.deep_view(), 0),
        r <= messages@.len(),
{
    let ghost msgs = messages.deep_view();
    let mut i: usize = messages.len();
    let mut n: usize = 0;
    while i > 0
        invariant
            msgs == messages.deep_view(),
            i <= messages@.len(),
            n == users_from(msgs, i as int),
            n <= messages@.len() - i,
        decreases i,
    {
        i -= 1;
        assert(msgs[i as int] == messages@[i as int]@);
        if messages[i].role == Role::User {
            n += 1;
        }
    }
    n
}

/// The position of the `k`th user message from the end.
fn find_user_from_end(messages: &[ChatMessage], k: usize) -> (r: Option<usize>)
    ensures
        match r {
            Some(u) => user_from_end(messages.deep_view(), k as int, messages@.len() as int)
                == Some(u as int) && u < messages@.len(),
            None => user_from_end(messages.deep_view(), k as int, messages@.len() as int) is None,
        },
{
    let ghost msgs = messages.deep_view();
    let mut i: usize = messages.len();
    let mut left: usize = k;
    while i > 0 && left > 0
        invariant
            msgs == messages.deep_view(),
            i <= messages@.len(),
            user_from_end(msgs, k as int, messages@.len() as int) == user_from_end(
                msgs,
                left as int,
                i as int,
            ),
        decreases i,
    {
        i -= 1;
        assert(msgs[i as int] == messages@[i as int]@);
        if messages[i].role == Role::User {
            if left == 1 {
                return Some(i);
            }
            left -= 1;
        }
    }
    None
}

/// Where the tail begins that is measured by messages.
pub fn tail_start_by_count(
    messages: &[ChatMessage],
    protect_last_n: usize,
    min_tail_user_messages: usize,
) -> (r: usize)
    ensures
        r == legacy_tail_start(
            messages.deep_view(),
            protect_last_n as int,
            min_tail_user_messages as int,
        ),
        r <= messages@.len(),
{
    let n: usize = messages.len();
    let mut idx: usize = n.saturating_sub(protect_last_n);
    if min_tail_user_messages > 0 && count_users(messages) > min_tail_user_messages {
        if let Some(u) = find_user_from_end(messages, min_tail_user_messages) {
            if u < idx {
                idx = u;
            }
        }
    }
    assert(messages.deep_view().take(n as int) =~= messages.deep_view());
    snap_boundary_forward(messages, idx, n)
}

/// Where the kept tail begins.
pub open spec fn tail_start(
    msgs: Seq<MessageModel>,
    tail_mode: TailMode,
    budget: int,
    protect_last_n: int,
    min_users: int,
) -> int {
    match tail_mode {
        TailMode::Lean => lean_tail_start(msgs, budget, min_users),
        TailMode::Legacy => legacy_tail_start(msgs, protect_last_n, min_users),
    }
}

/// The window of a conversation: from the end of the kept head to the start of the
/// kept tail. A conversation of fewer than four messages, or one whose head reaches
/// its tail, has none.
pub open spec fn window_of(
    msgs: Seq<MessageModel>,
    protect_first_n: int,
    tail_mode: TailMode,
    budget: int,
    protect_last_n: int,
    min_users: int,
) -> Option<(int, int)> {
    let start = head_size(msgs, protect_first_n);
    let end = tail_start(msgs, tail_mode, budget, protect_last_n, min_users);
    if msgs.len() < 4 || start >= end {
        None
    } else {
        Some((start, end))
    }
}

/// Finds the window of a conversation.
pub fn compute_compress_window(
    messages: &[ChatMessage],
    protect_first_n: usize,
    tail_mode: TailMode,
    tail_token_budget: usize,
    protect_last_n: usize,
    min_tail_user_messages: usize,
) -> (r: Option<CompressWindow>)
    ensures
        ({
            let w = window_of(
                messages.deep_view(),
                protect_first_n as int,
                tail_mode,
                tail_token_budget as int,
                protect_last_n as int,
                min_tail_user_messages as int,
            );
            match r {
                Some(x) => w == Some((x.compress_start as int, x.compress_end as int))
                    && x.compress_start < x.compress_end <= messages@.len(),
                None => w is None,
            }
        }),
{
    if messages.len() < 4 {
        return None;
    }
    let compress_start: usize = protect_head_size(messages, protect_first_n);
    let compress_end: usize = match tail_mode {
        TailMode::Lean => tail_start_by_budget(
            messages,
            tail_token_budget,
            min_tail_user_messages,
        ),
        TailMode::Legacy => tail_start_by_count(
            messages,
            protect_last_n,
            min_tail_user_messages,
        ),
    };
    if compress_start >= compress_end {
        return None;
    }
    Some(CompressWindow { compress_start, compress_end })
}

/// The tail never begins with the result of a tool while another message follows
/// it, so that no result is parted from its call at the end of the window.
pub proof fn tail_starts_past_tool_results(
    msgs: Seq<MessageModel>,
    tail_mode: TailMode,
    budget: int,
    protect_last_n: int,
    min_users: int,
)
    requires
        0 <= protect_last_n,
    ensures
        ({
            let t = tail_start(msgs, tail_mode, budget, protect_last_n, min_users);
            &&& 0 <= t <= msgs.len()
            &&& t < msgs.len() && msgs[t].role == Role::Tool ==> forall|k: int|
                t <= k < msgs.len() ==> msgs[k].role == Role::Tool
        }),
{
    budget_start_is_longest(msgs, budget, min_users, msgs.len() as int);
    user_from_end_bounds(msgs, min_users, msgs.len() as int);
    let i = match tail_mode {
        TailMode::Lean => budget_start(msgs, budget, min_users, msgs.len() as int),
        TailMode::Legacy => {
            let by_count = if protect_last_n <= msgs.len() {
                msgs.len() - protect_last_n
            } else {
                0
            };
            if users_from(msgs, 0) > min_users {
                match user_from_end(msgs, min_users, msgs.len() as int) {
                    Some(u) if u < by_count => u,
                    _ => by_count,
                }
            } else {
                by_count
            }
        },
    };
    first_non_tool_bounds(msgs, i);
}

/// Further back there are no fewer user messages to come.
proof fn users_from_monotone(msgs: Seq<MessageModel>, i: int, j: int)
    requires
        0 <= i <= j <= msgs.len(),
    ensures
        users_from(msgs, j) <= users_from(msgs, i),
    decreases j - i,
{
    if i < j {
        users_from_monotone(msgs, i + 1, j);
    }
}

/// From the `k`th user message from the end on there are `k` user messages.
proof fn user_from_end_counts(msgs: Seq<MessageModel>, k: int, i: int)
    requires
        0 <= i <= msgs.len(),
        k > 0,
    ensures
        match user_from_end(msgs, k, i) {
            Some(u) => users_from(msgs, u) == users_from(msgs, i) + k,
            None => users_from(msgs, 0) < users_from(msgs, i) + k,
        },
    decreases i,
{
    if i > 0 {
        user_from_end_bounds(msgs, k, i);
        if msgs[i - 1].role != Role::User {
            user_from_end_counts(msgs, k, i - 1);
        } else if k > 1 {
            user_from_end_counts(msgs, k - 1, i - 1);
        }
    }
}

/// Moving a boundary on past the results of tools leaves no user message behind.
proof fn snapping_keeps_users(msgs: Seq<MessageModel>, i: int)
    requires
        0 <= i <= msgs.len(),
    ensures
        users_from(msgs, first_non_tool(msgs, i)) == users_from(msgs, i),
    decreases msgs.len() - i,
{
    if i < msgs.len() && msgs[i].role == Role::Tool {
        snapping_keeps_users(msgs, i + 1);
    }
}

/// The tail holds at least the least number of user messages: measured by tokens, as
/// far as there are so many; measured by messages, where there are more.
pub proof fn tail_keeps_user_messages(
    msgs: Seq<MessageModel>,
    tail_mode: TailMode,
    budget: int,
    protect_last_n: int,
    min_users: int,
)
    requires
        0 <= protect_last_n,
        0 < min_users,
        tail_mode == TailMode::Legacy ==> users_from(msgs, 0) > min_users,
    ensures
        ({
            let kept = users_from(
                msgs,
                tail_start(msgs, tail_mode, budget, protect_last_n, min_users),
            );
            kept >= min_users || kept == users_from(msgs, 0)
        }),
{
    let n = msgs.len() as int;
    match tail_mode {
        TailMode::Lean => {
            let s = budget_start(msgs, budget, min_users, n);
            budget_start_is_longest(msgs, budget, min_users, n);
            snapping_keeps_users(msgs, s);
        },
        TailMode::Legacy => {
            let by_count = if protect_last_n <= n {
                n - protect_last_n
            } else {
                0
            };
            user_from_end_counts(msgs, min_users, n);
            user_from_end_bounds(msgs, min_users, n);
            let u = user_from_end(msgs, min_users, n)->0;
            let start = if u < by_count {
                u
            } else {
                by_count
            };
            users_from_monotone(msgs, start, u);
            snapping_keeps_users(msgs, start);
        },
    }
}

/// The head and the tail are kept: the window lies strictly between the opening
/// system messages with the first `protect_first_n` messages and the end.
pub proof fn window_keeps_head_and_tail(
    msgs: Seq<MessageModel>,
    protect_first_n: int,
    tail_mode: TailMode,
    budget: int,
    protect_last_n: int,
    min_users: int,
)
    requires
        0 <= protect_first_n,
        0 <= protect_last_n,
    ensures
        window_of(
            msgs,
            protect_first_n,
            tail_mode,
            budget,
            protect_last_n,
            min_users,
        ) matches Some((start, end)) ==> {
            &&& leading_system(msgs) + protect_first_n == start
            &&& 0 <= start < end <= msgs.len()
        },
{
    leading_system_bounds(msgs);
    tail_starts_past_tool_results(msgs, tail_mode, budget, protect_last_n, min_users);
}

/// The messages at the head are the system messages that a conversation begins with, all of
/// them, and as many more as are set, or all there are.
pub proof fn the_head_is_as_set(msgs: Seq<MessageModel>, protect_first_n: int)
    requires
        0 <= protect_first_n,
    ensures
        leading_system(msgs) < msgs.len() ==> msgs[leading_system(msgs)].role != Role::System,
        leading_system(msgs) + protect_first_n <= msgs.len() ==> head_size(msgs, protect_first_n)
            == leading_system(msgs) + protect_first_n,
        leading_system(msgs) + protect_first_n > msgs.len() ==> head_size(msgs, protect_first_n)
            == msgs.len(),
    decreases msgs.len(),
{
    if msgs.len() > 0 && msgs[0].role == Role::System {
        the_head_is_as_set(msgs.skip(1), protect_first_n);
        leading_system_bounds(msgs.skip(1));
    }
}

/// What counts in a tail: one for each message of the user, and the tokens of each message.
pub proof fn tails_are_counted_message_by_message(msgs: Seq<MessageModel>, i: int)
    requires
        0 <= i < msgs.len(),
    ensures
        msgs[i].role == Role::User ==> users_from(msgs, i) == users_from(msgs, i + 1) + 1,
        msgs[i].role != Role::User ==> users_from(msgs, i) == users_from(msgs, i + 1),
        users_from(msgs, msgs.len() as int) == 0,
        tail_tokens(msgs, i) == tail_tokens(msgs, i + 1) + token::tokens_of(seq![msgs[i]]),
        tail_tokens(msgs, msgs.len() as int) == 0,
{
    assert(msgs.subrange(i, i + 1) =~= seq![msgs[i]]);
}

/// A lean tail is as long as its budget allows: what it begins with fits the budget, or is
/// needed for the messages of the user that it is to hold, and one message more would be
/// too many. Only results at its beginning are passed over.
pub proof fn a_lean_tail_uses_its_budget(msgs: Seq<MessageModel>, budget: int, min_users: int)
    ensures
        ({
            let t = lean_tail_start(msgs, budget, min_users);
            let s = budget_start(msgs, budget, min_users, msgs.len() as int);
            &&& 0 <= s <= t <= msgs.len()
            &&& forall|k: int| s <= k < t ==> (#[trigger] msgs[k]).role == Role::Tool
            &&& s < msgs.len() ==> tail_tokens(msgs, s) <= budget || users_from(msgs, s + 1)
                < min_users
            &&& s > 0 ==> tail_tokens(msgs, s - 1) > budget && users_from(msgs, s) >= min_users
        }),
{
    let s = budget_start(msgs, budget, min_users, msgs.len() as int);
    budget_start_is_longest(msgs, budget, min_users, msgs.len() as int);
    first_non_tool_bounds(msgs, s);
    if s < msgs.len() {
        assert(tail_takes(msgs, budget, min_users, s));
    }
}

/// A tail by number holds the last messages, as many as are set, but for results at its
/// beginning; it begins earlier only for the sake of the messages of the user.
pub proof fn a_tail_by_number_holds_the_last_messages(
    msgs: Seq<MessageModel>,
    protect_last_n: int,
    min_users: int,
    k: int,
)
    requires
        0 <= protect_last_n <= msgs.len(),
        msgs.len() - protect_last_n <= k < msgs.len(),
        msgs[k].role != Role::Tool,
    ensures
        legacy_tail_start(msgs, protect_last_n, min_users) <= k,
        users_from(msgs, 0) <= min_users && protect_last_n > 0 && msgs[msgs.len()
            - protect_last_n].role != Role::Tool ==> legacy_tail_start(
            msgs,
            protect_last_n,
            min_users,
        ) == msgs.len() - protect_last_n,
{
    let by_count = msgs.len() - protect_last_n;
    user_from_end_bounds(msgs, min_users, msgs.len() as int);
    let start = if users_from(msgs, 0) > min_users {
        match user_from_end(msgs, min_users, msgs.len() as int) {
            Some(u) if u < by_count => u,
            _ => by_count,
        }
    } else {
        by_count
    };
    first_non_tool_bounds(msgs, start);
}

/// There is something to sum up exactly where a conversation has four messages or more and
/// some of them stand between its head and its tail; that is what is summed up.
pub proof fn what_lies_between_is_summed_up(
    msgs: Seq<MessageModel>,
    protect_first_n: int,
    tail_mode: TailMode,
    budget: int,
    protect_last_n: int,
    min_users: int,
)
    ensures
        ({
            let head = head_size(msgs, protect_first_n);
            let lean = lean_tail_start(msgs, budget, min_users);
            let legacy = legacy_tail_start(msgs, protect_last_n, min_users);
            let w = window_of(
                msgs,
                protect_first_n,
                tail_mode,
                budget,
                protect_last_n,
                min_users,
            );
            &&& tail_mode == TailMode::Lean ==> w is Some == (msgs.len() >= 4 && head < lean)
            &&& tail_mode == TailMode::Legacy ==> w is Some == (msgs.len() >= 4 && head < legacy)
            &&& w is Some && tail_mode == TailMode::Lean ==> w == Some((head, lean))
            &&& w is Some && tail_mode == TailMode::Legacy ==> w == Some((head, legacy))
        }),
{
}

/// A boundary among results moves on to the first message that is none; where only results
/// follow, it stays where it is.
pub proof fn a_boundary_moves_past_results(msgs: Seq<MessageModel>, i: int, j: int)
    requires
        0 <= i <= j <= msgs.len(),
        forall|k: int| i <= k < j ==> (#[trigger] msgs[k]).role == Role::Tool,
        j < msgs.len() ==> msgs[j].role != Role::Tool,
    ensures
        j < msgs.len() ==> snapped(msgs, i) == j,
        j == msgs.len() ==> snapped(msgs, i) == i,
{
    first_non_tool_bounds(msgs, i);
    let found = first_non_tool(msgs, i);
    if found < j {
        assert(msgs[found].role == Role::Tool);
    }
}

} // verus!

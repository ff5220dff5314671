//! How a conversation is woken when results have come for it.
use vstd::prelude::*;

use crate::directory::Directory;
use crate::json;
use crate::json::{add_field, Json, JsonModel};
use crate::text::{chars_of, cut, string_of};

verus! {

broadcast use crate::json::fields_model_push;

/// For so many milliseconds a conversation is not woken again.
pub const DEDUP_WINDOW_MS: u64 = 1000;

/// How often a call that wakes a conversation is made again.
pub const MAX_RETRIES: u32 = 3;

/// How many milliseconds lie before the first call that is made again.
pub const RETRY_BASE_MS: u64 = 100;

/// How many milliseconds a call that wakes a conversation may take.
pub const WAKE_TIMEOUT_MS: u64 = 30_000;

/// When which conversation was last woken.
#[derive(Debug)]
pub struct WakeGate {
    pub last_wake: Directory<u64>,
}

/// A conversation was woken a moment ago.
pub open spec fn woken_just_now(
    last: Map<Seq<char>, u64>,
    session: Seq<char>,
    now_ms: u64,
) -> bool {
    last.contains_key(session) && now_ms - last[session] < DEDUP_WINDOW_MS
}

/// When which conversation was last woken, once one is to be woken.
pub open spec fn after_wish(
    last: Map<Seq<char>, u64>,
    session: Seq<char>,
    now_ms: u64,
) -> Map<Seq<char>, u64> {
    if woken_just_now(last, session, now_ms) {
        last
    } else {
        last.insert(session, now_ms)
    }
}

impl WakeGate {
    /// No conversation was woken.
    pub fn new() -> (r: Self)
        ensures
            r.last_wake@ == Map::<Seq<char>, u64>::empty(),
    {
        WakeGate { last_wake: Directory::new() }
    }

    /// Whether a conversation is woken that is to be woken: not where it was a moment ago.
    pub fn wake(&mut self, session_id: &str, now_ms: u64) -> (r: bool)
        ensures
            r == !woken_just_now(old(self).last_wake@, session_id@, now_ms),
            final(self).last_wake@ == after_wish(old(self).last_wake@, session_id@, now_ms),
    {
        if let Some(prev) = self.last_wake.get(session_id) {
            if now_ms < *prev || now_ms - *prev < DEDUP_WINDOW_MS {
                return false;
            }
        }
        self.last_wake.put(session_id, now_ms);
        true
    }
}

/// A text without the slashes at its end.
pub open spec fn without_slashes(s: Seq<char>) -> Seq<char>
    decreases s.len(),
{
    if s.len() > 0 && s.last() == '/' {
        without_slashes(s.drop_last())
    } else {
        s
    }
}

/// Where a conversation is woken.
pub fn wake_url(base_url: &str) -> (r: String)
    ensures
        r@ == without_slashes(base_url@) + "/chat"@,
{
    let chars = chars_of(base_url);
    let ghost all = chars@;
    let mut n: usize = chars.len();
    assert(all.take(n as int) =~= all);
    while n > 0 && chars[n - 1] == '/'
        invariant
            n <= chars@.len(),
            chars@ == all,
            without_slashes(all.take(n as int)) == without_slashes(all),
        decreases n,
    {
        assert(all.take(n as int).last() == all[n - 1]);
        assert(all.take(n as int).drop_last() =~= all.take(n - 1));
        n -= 1;
    }
    assert(n > 0 ==> all.take(n as int).last() == all[n - 1]);
    let head = cut(chars.as_slice(), 0, n);
    assert(head@ =~= all.take(n as int));
    let mut s = string_of(head.as_slice());
    s.append("/chat");
    s
}

/// What is said to wake a conversation: nothing.
pub open spec fn wake_message(session: Seq<char>) -> JsonModel {
    JsonModel::Object(
        seq![
            ("message"@, JsonModel::Str(Seq::empty())),
            ("session_id"@, JsonModel::Str(session)),
        ],
    )
}

/// What is said to wake a conversation.
pub fn wake_body(session_id: &str) -> (r: Json)
    ensures
        r@ == wake_message(session_id@),
{
    let mut o: Vec<(String, Json)> = Vec::new();
    add_field(&mut o, "message", Json::Str(String::new()));
    add_field(&mut o, "session_id", Json::string(session_id));
    let r = Json::object(o);
    assert(r@->Object_0 =~= wake_message(session_id@)->Object_0);
    r
}

/// How many milliseconds lie between a call that has failed and the next: twice as many
/// each time.
pub open spec fn pause_after(attempt: nat) -> nat
    decreases attempt,
{
    if attempt == 0 {
        RETRY_BASE_MS as nat
    } else {
        2 * pause_after((attempt - 1) as nat)
    }
}

/// How many milliseconds to wait before a call that has failed so often is made again;
/// nothing where it is not.
pub fn retry_after(attempt: u32) -> (r: Option<u64>)
    ensures
        r == if attempt < MAX_RETRIES {
            Some(pause_after(attempt as nat) as u64)
        } else {
            None
        },
{
    if attempt >= MAX_RETRIES {
        return None;
    }
    proof {
        reveal_with_fuel(pause_after, 4);
    }
    let mut pause: u64 = RETRY_BASE_MS;
    if attempt >= 1 {
        pause = pause * 2;
    }
    if attempt >= 2 {
        pause = pause * 2;
    }
    Some(pause)
}

// ---------- laws ----------

/// A conversation that was woken is not woken again within the window, and is after it.
pub proof fn a_conversation_is_woken_once_in_a_while(
    last: Map<Seq<char>, u64>,
    session: Seq<char>,
    now_ms: u64,
    later_ms: u64,
)
    requires
        !woken_just_now(last, session, now_ms),
    ensures
        woken_just_now(after_wish(last, session, now_ms), session, later_ms) == (later_ms - now_ms
            < DEDUP_WINDOW_MS),
{
}

/// That one conversation is woken keeps no other from being woken.
pub proof fn conversations_are_woken_apart(
    last: Map<Seq<char>, u64>,
    session: Seq<char>,
    other: Seq<char>,
    now_ms: u64,
    later_ms: u64,
)
    requires
        other != session,
    ensures
        woken_just_now(after_wish(last, session, now_ms), other, later_ms) == woken_just_now(
            last,
            other,
            later_ms,
        ),
{
}

/// A wake that failed is tried again after a tenth of a second, and then after twice the time
/// before.
pub proof fn pauses_double(attempt: nat)
    ensures
        pause_after(0) == 100,
        pause_after(attempt + 1) == 2 * pause_after(attempt),
{
}

/// A conversation that was never woken is woken, and one that was is woken again a second
/// later.
pub proof fn when_a_conversation_is_woken(
    last: Map<Seq<char>, u64>,
    session: Seq<char>,
    now_ms: u64,
)
    ensures
        !last.contains_key(session) ==> !woken_just_now(last, session, now_ms),
        last.contains_key(session) && now_ms >= last[session] + 1000 ==> !woken_just_now(
            last,
            session,
            now_ms,
        ),
        last.contains_key(session) && last[session] <= now_ms < last[session] + 1000
            ==> woken_just_now(last, session, now_ms),
        !woken_just_now(last, session, now_ms) ==> after_wish(last, session, now_ms)[session]
            == now_ms,
{
}

/// A conversation is woken with an empty message under its session.
pub proof fn what_wakes_a_conversation(session: Seq<char>)
    ensures
        wake_message(session).get("message"@) == Some(JsonModel::Str(Seq::empty())),
        wake_message(session).get("session_id"@) == Some(JsonModel::Str(session)),
{
    let o = wake_message(session)->Object_0;
    reveal_strlit("message");
    reveal_strlit("session_id");
    assert("message"@.len() == 7);
    assert("session_id"@.len() == 10);
    json::a_field_is_found(o, 0);
    json::a_field_is_found(o, 1);
}

/// Slashes at the end of an address are left out, all of them and nothing else.
pub proof fn slashes_are_left_out(s: Seq<char>)
    ensures
        ({
            let r = without_slashes(s);
            &&& r.len() <= s.len()
            &&& s.take(r.len() as int) == r
            &&& r.len() > 0 ==> r.last() != '/'
            &&& forall|i: int| r.len() <= i < s.len() ==> s[i] == '/'
        }),
    decreases s.len(),
{
    if s.len() > 0 && s.last() == '/' {
        slashes_are_left_out(s.drop_last());
        let r = without_slashes(s);
        assert(s.take(r.len() as int) =~= s.drop_last().take(r.len() as int));
        assert forall|i: int| r.len() <= i < s.len() implies s[i] == '/' by {
            if i < s.len() - 1 {
                assert(s.drop_last()[i] == '/');
            }
        }
    } else {
        assert(s.take(s.len() as int) =~= s);
    }
}

} // verus!

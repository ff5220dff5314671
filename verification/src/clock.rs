//! Time as whole milliseconds.
use vstd::prelude::*;

use crate::json::{Json, JsonModel};
use crate::text;
use crate::text::decimal_text;

verus! {

/// The point in time of std's monotonic clock.
#[verifier::external_type_specification]
#[verifier::external_body]
pub struct ExInstant(std::time::Instant);

/// A clock that counts the milliseconds since it was started and never goes back.
#[derive(Debug, Clone, Copy)]
pub struct Clock {
    origin: std::time::Instant,
}

impl Clock {
    /// `std::time::Instant::now`: a clock started at this moment.
    #[verifier::external_body]
    pub(crate) fn start() -> (r: Clock) {
        Clock { origin: std::time::Instant::now() }
    }

    /// `std::time::Instant::elapsed`: the milliseconds since the clock was started.
    /// Nothing is known of the number.
    #[verifier::external_body]
    pub(crate) fn now_ms(&self) -> (r: u64) {
        self.origin.elapsed().as_millis() as u64
    }
}

/// A moment of the calendar: seconds since the beginning of 1970 and nanoseconds of
/// the second.
#[derive(Debug, Clone, Copy, PartialEq, Eq, Structural)]
pub struct Timestamp {
    pub secs: i64,
    pub nanos: u32,
}

/// The text that `chrono` writes for a moment in the form of RFC 3339, where the moment
/// lies within its calendar.
pub uninterp spec fn rfc3339(secs: i64, nanos: u32) -> Option<Seq<char>>;

impl Timestamp {
    /// `chrono::DateTime::from_timestamp` and `chrono::DateTime::to_rfc3339`: the moment
    /// in the form of RFC 3339, or nothing where it does not lie within the calendar.
    #[verifier::external_body]
    pub(crate) fn to_rfc3339(&self) -> (r: Option<String>)
        ensures
            r.deep_view() == rfc3339(self.secs, self.nanos),
    {
        chrono::DateTime::from_timestamp(self.secs, self.nanos).map(|t| t.to_rfc3339())
    }

    /// Whether the moment lies after another.
    pub open spec fn is_after(self, other: Self) -> bool {
        self.secs > other.secs || self.secs == other.secs && self.nanos > other.nanos
    }

    /// Whether the moment lies after another.
    pub fn after(&self, other: &Timestamp) -> (r: bool)
        ensures
            r == self.is_after(*other),
    {
        self.secs > other.secs || (self.secs == other.secs && self.nanos > other.nanos)
    }

    /// The moment in the form of RFC 3339; empty outside the calendar.
    pub open spec fn text(self) -> Seq<char> {
        match rfc3339(self.secs, self.nanos) {
            Some(t) => t,
            None => Seq::empty(),
        }
    }

    /// The moment in the form of RFC 3339; empty outside the calendar.
    pub fn to_text(&self) -> (r: String)
        ensures
            r@ == self.text(),
    {
        match self.to_rfc3339() {
            Some(t) => t,
            None => String::new(),
        }
    }
}

/// The moment that lies so many seconds after another, as far as the clock counts.
pub open spec fn deadline(now_ms: u64, secs: u64) -> u64 {
    if now_ms + secs * 1000 <= u64::MAX {
        (now_ms + secs * 1000) as u64
    } else {
        u64::MAX
    }
}

/// The moment that lies so many seconds after another.
pub fn deadline_after(now_ms: u64, secs: u64) -> (r: u64)
    ensures
        r == deadline(now_ms, secs),
{
    if secs > u64::MAX / 1000 {
        u64::MAX
    } else {
        now_ms.saturating_add(secs * 1000)
    }
}

/// The thousandths of a second, with no more digits than they need and at least one.
pub open spec fn thousandths(n: nat) -> Seq<char> {
    if n % 100 == 0 {
        text::decimal(n / 100)
    } else if n % 10 == 0 {
        text::decimal(n / 100) + text::decimal(n / 10 % 10)
    } else {
        text::decimal(n / 100) + text::decimal(n / 10 % 10) + text::decimal(n % 10)
    }
}

/// So many milliseconds as seconds with a fraction.
pub open spec fn seconds(ms: u64) -> Seq<char> {
    text::decimal((ms / 1000) as nat) + "."@ + thousandths((ms % 1000) as nat)
}

/// So many milliseconds as seconds with a fraction.
pub fn seconds_text(ms: u64) -> (r: String)
    ensures
        r@ == seconds(ms),
{
    let n: u64 = ms % 1000;
    let mut s = decimal_text(ms / 1000);
    s.append(".");
    s.append(decimal_text(n / 100).as_str());
    if n % 100 != 0 {
        s.append(decimal_text(n / 10 % 10).as_str());
        if n % 10 != 0 {
            s.append(decimal_text(n % 10).as_str());
        }
    }
    assert(s@ =~= seconds(ms));
    s
}

/// So many milliseconds as a JSON number of seconds.
pub open spec fn seconds_model(ms: u64) -> JsonModel {
    JsonModel::Float(seconds(ms))
}

/// So many milliseconds as a JSON number of seconds.
pub fn seconds_json(ms: u64) -> (r: Json)
    ensures
        r@ == seconds_model(ms),
{
    Json::Float(seconds_text(ms))
}

/// A deadline lies so many seconds behind the moment, or at the end of what the clock counts.
pub proof fn a_deadline_is_as_far_as_asked_for(now_ms: u64, secs: u64)
    ensures
        now_ms + 1000 * secs <= u64::MAX ==> deadline(now_ms, secs) == now_ms + 1000 * secs,
        now_ms + 1000 * secs > u64::MAX ==> deadline(now_ms, secs) == u64::MAX,
{
}

/// A moment lies behind another where its second does, or its part of the same second; never
/// behind itself, and of two different ones one lies behind the other.
pub proof fn moments_are_in_order(a: Timestamp, b: Timestamp)
    ensures
        a.secs > b.secs ==> a.is_after(b),
        a.secs == b.secs && a.nanos > b.nanos ==> a.is_after(b),
        a.is_after(b) ==> !b.is_after(a),
        a != b ==> a.is_after(b) || b.is_after(a),
        !a.is_after(a),
{
}

/// Milliseconds are written as seconds: the whole seconds, a point and the rest.
pub proof fn milliseconds_are_written_as_seconds(ms: u64)
    ensures
        text::starts_with(seconds(ms), text::decimal((ms / 1000) as nat) + "."@),
        ms % 1000 == 0 ==> seconds(ms) == text::decimal((ms / 1000) as nat) + ".0"@,
        ms % 1000 >= 100 && ms % 10 != 0 ==> seconds(ms) == text::decimal((ms / 1000) as nat)
            + "."@ + text::decimal((ms % 1000 / 100) as nat) + text::decimal(
            (ms % 1000 / 10 % 10) as nat,
        ) + text::decimal((ms % 10) as nat),
{
    let front = text::decimal((ms / 1000) as nat) + "."@;
    assert(seconds(ms).subrange(0, front.len() as int) =~= front);
    if ms % 1000 == 0 {
        reveal_strlit(".");
        reveal_strlit(".0");
        text::numbers_are_written_in_tens(0);
        reveal_strlit("0");
        assert("."@ + text::decimal(0) =~= ".0"@);
        assert(seconds(ms) =~= text::decimal((ms / 1000) as nat) + ("."@ + text::decimal(0)));
    }
    let n = (ms % 1000) as nat;
    if ms % 1000 >= 100 && ms % 10 != 0 {
        assert(n % 10 == ms % 10);
        assert(n % 100 != 0);
        assert(seconds(ms) =~= front + text::decimal(n / 100) + text::decimal(n / 10 % 10)
            + text::decimal(n % 10));
    }
}

} // verus!

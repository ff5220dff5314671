//! The errors of the runtime.
use vstd::prelude::*;

use crate::ids;
use crate::ids::id_to_text;
use crate::text;
use crate::text::{decimal_text, text_contains};

verus! {

/// What went wrong with a call of the model.
#[derive(Debug, Clone, Copy, PartialEq, Eq, Structural)]
pub enum LlmErrorKind {
    RateLimit,
    ServerError,
    ContextOverflow,
    Authentication,
    ContentPolicy,
    InvalidRequest,
    Timeout,
    Connection,
    Unknown,
}

/// Whether a call may succeed when it is made again.
pub open spec fn is_retryable(kind: LlmErrorKind) -> bool {
    match kind {
        LlmErrorKind::RateLimit => true,
        LlmErrorKind::ServerError => true,
        LlmErrorKind::Timeout => true,
        LlmErrorKind::Connection => true,
        LlmErrorKind::Unknown => true,
        _ => false,
    }
}

/// The name of a kind.
pub open spec fn llm_kind_name(kind: LlmErrorKind) -> Seq<char> {
    match kind {
        LlmErrorKind::RateLimit => "rate_limit"@,
        LlmErrorKind::ServerError => "server_error"@,
        LlmErrorKind::ContextOverflow => "context_overflow"@,
        LlmErrorKind::Authentication => "authentication"@,
        LlmErrorKind::ContentPolicy => "content_policy"@,
        LlmErrorKind::InvalidRequest => "invalid_request"@,
        LlmErrorKind::Timeout => "timeout"@,
        LlmErrorKind::Connection => "connection"@,
        LlmErrorKind::Unknown => "unknown"@,
    }
}

impl LlmErrorKind {
    /// Whether a call may succeed when it is made again.
    pub fn retryable(&self) -> (r: bool)
        ensures
            r == is_retryable(*self),
    {
        match self {
            LlmErrorKind::RateLimit => true,
            LlmErrorKind::ServerError => true,
            LlmErrorKind::Timeout => true,
            LlmErrorKind::Connection => true,
            LlmErrorKind::Unknown => true,
            _ => false,
        }
    }

    /// The name of the kind.
    pub fn name(&self) -> (r: &'static str)
        ensures
            r@ == llm_kind_name(*self),
    {
        match self {
            LlmErrorKind::RateLimit => "rate_limit",
            LlmErrorKind::ServerError => "server_error",
            LlmErrorKind::ContextOverflow => "context_overflow",
            LlmErrorKind::Authentication => "authentication",
            LlmErrorKind::ContentPolicy => "content_policy",
            LlmErrorKind::InvalidRequest => "invalid_request",
            LlmErrorKind::Timeout => "timeout",
            LlmErrorKind::Connection => "connection",
            LlmErrorKind::Unknown => "unknown",
        }
    }
}

/// An error of a call of the model.
#[derive(Debug, PartialEq, Eq)]
pub struct LlmApiError {
    pub kind: LlmErrorKind,
    pub status_code: Option<u16>,
    pub message: String,
    /// After how many seconds the provider wants to be called again.
    pub retry_after_secs: Option<u64>,
}

/// A status code as text.
pub open spec fn status_text(code: Option<u16>) -> Seq<char> {
    match code {
        Some(n) => "Some("@ + text::decimal(n as nat) + ")"@,
        None => "None"@,
    }
}

impl LlmApiError {
    /// The text of the error.
    pub open spec fn text(self) -> Seq<char> {
        llm_kind_name(self.kind) + " (status="@ + status_text(self.status_code) + "): "@
            + self.message@
    }

    /// The text of the error.
    pub fn to_text(&self) -> (r: String)
        ensures
            r@ == self.text(),
    {
        let mut status = String::from_str("None");
        if let Some(n) = self.status_code {
            status = String::from_str("Some(");
            status.append(decimal_text(n as u64).as_str());
            status.append(")");
        }
        let mut s = String::from_str(self.kind.name());
        s.append(" (status=");
        s.append(status.as_str());
        s.append("): ");
        s.append(self.message.as_str());
        s
    }
}

/// Whether a tool that failed may be tried again.
#[derive(Debug, Clone, Copy, PartialEq, Eq, Structural)]
pub enum ToolFailureKind {
    Transient,
    Permanent,
}

/// A text, in lower case, speaks of a passing failure.
pub open spec fn speaks_of_passing(lower: Seq<char>) -> bool {
    ||| text::contains(lower, "timeout"@)
    ||| text::contains(lower, "timed out"@)
    ||| text::contains(lower, "connection reset"@)
    ||| text::contains(lower, "connection refused"@)
    ||| text::contains(lower, "temporarily unavailable"@)
    ||| text::contains(lower, "rate limit"@)
    ||| text::contains(lower, "too many requests"@)
}

/// The kind of a failure by its text in lower case.
pub open spec fn failure_kind(lower: Seq<char>) -> ToolFailureKind {
    if speaks_of_passing(lower) {
        ToolFailureKind::Transient
    } else {
        ToolFailureKind::Permanent
    }
}

impl ToolFailureKind {
    /// The kind of a failure by its text in lower case.
    pub fn from_lowercase(lower: &str) -> (r: Self)
        ensures
            r == failure_kind(lower@),
    {
        if text_contains(lower, "timeout") || text_contains(lower, "timed out") || text_contains(
            lower,
            "connection reset",
        ) || text_contains(lower, "connection refused") || text_contains(
            lower,
            "temporarily unavailable",
        ) || text_contains(lower, "rate limit") || text_contains(lower, "too many requests") {
            ToolFailureKind::Transient
        } else {
            ToolFailureKind::Permanent
        }
    }

    /// The kind of a failure by its text, in which case does not matter.
    pub fn from_error_message(msg: &str) -> (r: Self)
        ensures
            r == failure_kind(text::lowercased(msg@)),
            text::is_ascii_text(msg@) ==> r == failure_kind(text::ascii_lowercased(msg@)),
    {
        let lower = msg.to_lowercase();
        ToolFailureKind::from_lowercase(lower.as_str())
    }
}

/// A text in quotes with its special characters escaped, as std writes it for
/// debugging.
pub uninterp spec fn quoted(s: Seq<char>) -> Seq<char>;

/// `format!` of std with `{:?}` on a string slice: the text in quotes with its special
/// characters escaped.
#[verifier::external_body]
pub(crate) fn quote(s: &str) -> (r: String)
    ensures
        r@ == quoted(s@),
{
    format!("{:?}", s)
}

/// An optional text as std writes it for debugging.
pub open spec fn debug_opt(s: Option<Seq<char>>) -> Seq<char> {
    match s {
        Some(t) => "Some("@ + quoted(t) + ")"@,
        None => "None"@,
    }
}

/// An optional text as std writes it for debugging.
pub fn debug_opt_text(s: &Option<String>) -> (r: String)
    ensures
        r@ == debug_opt(s.deep_view()),
{
    match s {
        Some(t) => {
            let mut r = String::from_str("Some(");
            r.append(quote(t.as_str()).as_str());
            r.append(")");
            r
        },
        None => String::from_str("None"),
    }
}

/// An error of the runtime.
#[derive(Debug, PartialEq, Eq)]
pub enum LoomError {
    CapabilityNotFound(String),
    CapabilityAlreadyRegistered(String),
    AgentNotFound(u128),
    InvalidStateTransition { from: String, to: String },
    AdapterNotFound(String),
    IsolationNotSupported(String),
    ToolExecution(String),
    AgentExecution(String),
    Serialization(String),
    Io(String),
    Timeout,
    Cancelled,
    LlmApi(LlmApiError),
    GuardrailHalt(String),
    Other(String),
}

/// Two texts, one behind the other.
fn joined(a: &str, b: &str) -> (r: String)
    ensures
        r@ == a@ + b@,
{
    let mut s = String::from_str(a);
    s.append(b);
    s
}

impl LoomError {
    /// The text of the error.
    pub open spec fn text(self) -> Seq<char> {
        match self {
            LoomError::CapabilityNotFound(s) => "capability not found: "@ + s@,
            LoomError::CapabilityAlreadyRegistered(s) => "capability already registered: "@ + s@,
            LoomError::AgentNotFound(id) => "agent not found: "@ + ids::id_text(id),
            LoomError::InvalidStateTransition { from, to } =>
                "invalid agent state transition: "@ + from@ + " -> "@ + to@,
            LoomError::AdapterNotFound(s) => "adapter not found for source: "@ + quoted(s@),
            LoomError::IsolationNotSupported(s) =>
                "isolation level not supported: "@ + quoted(s@),
            LoomError::ToolExecution(s) => "tool execution failed: "@ + s@,
            LoomError::AgentExecution(s) => "agent execution failed: "@ + s@,
            LoomError::Serialization(s) => "serialization error: "@ + s@,
            LoomError::Io(s) => "io error: "@ + s@,
            LoomError::Timeout => "timeout"@,
            LoomError::Cancelled => "cancelled"@,
            LoomError::LlmApi(e) => "LLM API error: "@ + e.text(),
            LoomError::GuardrailHalt(s) => "guardrail halt: "@ + s@,
            LoomError::Other(s) => s@,
        }
    }

    /// The text of the error.
    pub fn to_text(&self) -> (r: String)
        ensures
            r@ == self.text(),
    {
        match self {
            LoomError::CapabilityNotFound(s) => joined("capability not found: ", s.as_str()),
            LoomError::CapabilityAlreadyRegistered(s) => joined(
                "capability already registered: ",
                s.as_str(),
            ),
            LoomError::AgentNotFound(id) => joined(
                "agent not found: ",
                id_to_text(*id).as_str(),
            ),
            LoomError::InvalidStateTransition { from, to } => {
                let mut s = String::from_str("invalid agent state transition: ");
                s.append(from.as_str());
                s.append(" -> ");
                s.append(to.as_str());
                s
            },
            LoomError::AdapterNotFound(s) => joined(
                "adapter not found for source: ",
                quote(s.as_str()).as_str(),
            ),
            LoomError::IsolationNotSupported(s) => joined(
                "isolation level not supported: ",
                quote(s.as_str()).as_str(),
            ),
            LoomError::ToolExecution(s) => joined("tool execution failed: ", s.as_str()),
            LoomError::AgentExecution(s) => joined("agent execution failed: ", s.as_str()),
            LoomError::Serialization(s) => joined("serialization error: ", s.as_str()),
            LoomError::Io(s) => joined("io error: ", s.as_str()),
            LoomError::Timeout => String::from_str("timeout"),
            LoomError::Cancelled => String::from_str("cancelled"),
            LoomError::LlmApi(e) => joined("LLM API error: ", e.to_text().as_str()),
            LoomError::GuardrailHalt(s) => joined("guardrail halt: ", s.as_str()),
            LoomError::Other(s) => s.clone(),
        }
    }
}

/// A tool that failed may be tried again where its error speaks of time, of a connection, of
/// being unavailable for a while or of too many calls; every other failure is permanent.
pub proof fn passing_failures_are_told_by_their_words(lower: Seq<char>)
    ensures
        (failure_kind(lower) == ToolFailureKind::Transient) == (text::contains(lower, "timeout"@)
            || text::contains(lower, "timed out"@) || text::contains(lower, "connection reset"@)
            || text::contains(lower, "connection refused"@) || text::contains(
            lower,
            "temporarily unavailable"@,
        ) || text::contains(lower, "rate limit"@) || text::contains(lower, "too many requests"@)),
{
}

/// An error says what it is about: the text of a failure of a tool, of an agent, of reading
/// or of the service ends with what was said of it, and any other stands as it is.
pub proof fn errors_say_what_was_wrong(s: String, e: LlmApiError, id: u128)
    ensures
        text::ends_with(LoomError::ToolExecution(s).text(), s@),
        text::ends_with(LoomError::AgentExecution(s).text(), s@),
        text::ends_with(LoomError::Serialization(s).text(), s@),
        text::ends_with(LoomError::Io(s).text(), s@),
        text::ends_with(LoomError::CapabilityNotFound(s).text(), s@),
        text::ends_with(LoomError::CapabilityAlreadyRegistered(s).text(), s@),
        text::ends_with(LoomError::GuardrailHalt(s).text(), s@),
        LoomError::Other(s).text() == s@,
        text::ends_with(LoomError::LlmApi(e).text(), e.message@),
        text::ends_with(LoomError::AgentNotFound(id).text(), ids::id_text(id)),
        LoomError::Timeout.text() == "timeout"@,
        LoomError::Cancelled.text() == "cancelled"@,
        text::starts_with(e.text(), llm_kind_name(e.kind)),
{
    let a = LoomError::ToolExecution(s).text();
    let b = LoomError::AgentExecution(s).text();
    let c = LoomError::Serialization(s).text();
    let d = LoomError::Io(s).text();
    let f = LoomError::CapabilityNotFound(s).text();
    let g = LoomError::CapabilityAlreadyRegistered(s).text();
    let h = LoomError::GuardrailHalt(s).text();
    let i = LoomError::LlmApi(e).text();
    let j = LoomError::AgentNotFound(id).text();
    assert(a.subrange(a.len() - s@.len(), a.len() as int) =~= s@);
    assert(b.subrange(b.len() - s@.len(), b.len() as int) =~= s@);
    assert(c.subrange(c.len() - s@.len(), c.len() as int) =~= s@);
    assert(d.subrange(d.len() - s@.len(), d.len() as int) =~= s@);
    assert(f.subrange(f.len() - s@.len(), f.len() as int) =~= s@);
    assert(g.subrange(g.len() - s@.len(), g.len() as int) =~= s@);
    assert(h.subrange(h.len() - s@.len(), h.len() as int) =~= s@);
    assert(i.subrange(i.len() - e.message@.len(), i.len() as int) =~= e.message@);
    assert(j.subrange(j.len() - ids::id_text(id).len(), j.len() as int) =~= ids::id_text(id));
    let k = llm_kind_name(e.kind);
    assert(e.text().subrange(0, k.len() as int) =~= k);
}

/// What may pass by itself is asked for again; what would come again is not.
pub proof fn which_failures_may_pass()
    ensures
        is_retryable(LlmErrorKind::RateLimit),
        is_retryable(LlmErrorKind::ServerError),
        is_retryable(LlmErrorKind::Timeout),
        is_retryable(LlmErrorKind::Connection),
        is_retryable(LlmErrorKind::Unknown),
        !is_retryable(LlmErrorKind::ContextOverflow),
        !is_retryable(LlmErrorKind::Authentication),
        !is_retryable(LlmErrorKind::ContentPolicy),
        !is_retryable(LlmErrorKind::InvalidRequest),
{
}

} // verus!

//! What an agent hands back, and how its errors are told apart.
use vstd::prelude::*;

use crate::result::ToolTrace;
use crate::text;
use crate::text::text_contains;

verus! {

/// What went wrong with an agent.
#[derive(Debug, Clone, Copy, PartialEq, Eq, Structural)]
pub enum AgentErrorKind {
    NoError,
    ToolError,
    ModelError,
    Timeout,
    DelegationError,
    CheckpointError,
    ResourceExhausted,
    Cancelled,
    Unknown,
}

impl Default for AgentErrorKind {
    fn default() -> (r: Self)
        ensures
            r == AgentErrorKind::NoError,
    {
        AgentErrorKind::NoError
    }
}

/// A text speaks of time running out.
pub open spec fn speaks_of_timeout(s: Seq<char>) -> bool {
    text::contains(s, "timeout"@) || text::contains(s, "timed out"@)
}

/// A text speaks of the model.
pub open spec fn speaks_of_model(s: Seq<char>) -> bool {
    text::contains(s, "api"@) || text::contains(s, "llm"@) || text::contains(s, "model"@)
}

/// A text speaks of delegation.
pub open spec fn speaks_of_delegation(s: Seq<char>) -> bool {
    text::contains(s, "delegat"@) || text::contains(s, "spawn"@)
}

/// A text speaks of checkpoints.
pub open spec fn speaks_of_checkpoint(s: Seq<char>) -> bool {
    text::contains(s, "checkpoint"@) || text::contains(s, "resume"@)
}

/// A text speaks of a resource.
pub open spec fn speaks_of_resource(s: Seq<char>) -> bool {
    text::contains(s, "resource"@) || text::contains(s, "quota"@) || text::contains(s, "token"@)
}

/// Whether a text speaks of time running out.
pub fn is_timeout_text(s: &str) -> (r: bool)
    ensures
        r == speaks_of_timeout(s@),
{
    text_contains(s, "timeout") || text_contains(s, "timed out")
}

/// Whether a text speaks of the model.
pub fn is_model_text(s: &str) -> (r: bool)
    ensures
        r == speaks_of_model(s@),
{
    text_contains(s, "api") || text_contains(s, "llm") || text_contains(s, "model")
}

/// Whether a text speaks of delegation.
pub fn is_delegation_text(s: &str) -> (r: bool)
    ensures
        r == speaks_of_delegation(s@),
{
    text_contains(s, "delegat") || text_contains(s, "spawn")
}

/// Whether a text speaks of checkpoints.
pub fn is_checkpoint_text(s: &str) -> (r: bool)
    ensures
        r == speaks_of_checkpoint(s@),
{
    text_contains(s, "checkpoint") || text_contains(s, "resume")
}

/// Whether a text speaks of a resource.
pub fn is_resource_text(s: &str) -> (r: bool)
    ensures
        r == speaks_of_resource(s@),
{
    text_contains(s, "resource") || text_contains(s, "quota") || text_contains(s, "token")
}

/// The kind of an error by its text in lower case: the first that the text speaks of.
pub open spec fn error_kind(lower: Seq<char>, empty: bool) -> AgentErrorKind {
    if speaks_of_timeout(lower) {
        AgentErrorKind::Timeout
    } else if text::contains(lower, "cancel"@) {
        AgentErrorKind::Cancelled
    } else if text::contains(lower, "tool"@) {
        AgentErrorKind::ToolError
    } else if speaks_of_model(lower) {
        AgentErrorKind::ModelError
    } else if speaks_of_delegation(lower) {
        AgentErrorKind::DelegationError
    } else if speaks_of_checkpoint(lower) {
        AgentErrorKind::CheckpointError
    } else if speaks_of_resource(lower) {
        AgentErrorKind::ResourceExhausted
    } else if empty {
        AgentErrorKind::NoError
    } else {
        AgentErrorKind::Unknown
    }
}

impl AgentErrorKind {
    /// The kind of an error by its text in lower case, and whether it has any text.
    pub fn from_lowercase(lower: &str, empty: bool) -> (r: Self)
        ensures
            r == error_kind(lower@, empty),
    {
        if is_timeout_text(lower) {
            AgentErrorKind::Timeout
        } else if text_contains(lower, "cancel") {
            AgentErrorKind::Cancelled
        } else if text_contains(lower, "tool") {
            AgentErrorKind::ToolError
        } else if is_model_text(lower) {
            AgentErrorKind::ModelError
        } else if is_delegation_text(lower) {
            AgentErrorKind::DelegationError
        } else if is_checkpoint_text(lower) {
            AgentErrorKind::CheckpointError
        } else if is_resource_text(lower) {
            AgentErrorKind::ResourceExhausted
        } else if empty {
            AgentErrorKind::NoError
        } else {
            AgentErrorKind::Unknown
        }
    }

    /// The kind of an error by its text, in which case does not matter.
    pub fn from_error_message(err: &str) -> (r: Self)
        ensures
            r == error_kind(text::lowercased(err@), err@.len() == 0),
            text::is_ascii_text(err@) ==> r == error_kind(
                text::ascii_lowercased(err@),
                err@.len() == 0,
            ),
    {
        let lower = err.to_lowercase();
        AgentErrorKind::from_lowercase(lower.as_str(), err.is_empty())
    }
}

/// What an agent hands back.
#[derive(Debug, PartialEq, Eq)]
pub struct AgentOutput {
    pub summary: String,
    pub iterations: usize,
    pub tool_calls_made: usize,
    pub tool_names: Vec<String>,
    pub success: bool,
    pub error_message: Option<String>,
    pub error_kind: AgentErrorKind,
    pub duration_ms: u64,
    pub tool_trace: Option<ToolTrace>,
}

impl AgentOutput {
    /// What an agent hands back that has succeeded.
    pub fn success(
        summary: String,
        iterations: usize,
        tool_calls_made: usize,
        tool_names: Vec<String>,
    ) -> (r: Self)
        ensures
            r == (AgentOutput {
                summary,
                iterations,
                tool_calls_made,
                tool_names,
                success: true,
                error_message: None,
                error_kind: AgentErrorKind::NoError,
                duration_ms: 0,
                tool_trace: None,
            }),
    {
        AgentOutput::success_with_meta(summary, iterations, tool_calls_made, tool_names, 0, None)
    }

    /// What an agent hands back that has succeeded, with how long it took and what its
    /// tools returned.
    pub fn success_with_meta(
        summary: String,
        iterations: usize,
        tool_calls_made: usize,
        tool_names: Vec<String>,
        duration_ms: u64,
        tool_trace: Option<ToolTrace>,
    ) -> (r: Self)
        ensures
            r == (AgentOutput {
                summary,
                iterations,
                tool_calls_made,
                tool_names,
                success: true,
                error_message: None,
                error_kind: AgentErrorKind::NoError,
                duration_ms,
                tool_trace,
            }),
    {
        AgentOutput {
            summary,
            iterations,
            tool_calls_made,
            tool_names,
            success: true,
            error_message: None,
            error_kind: AgentErrorKind::NoError,
            duration_ms,
            tool_trace,
        }
    }

    /// What an agent hands back that has failed; the kind is that of the text.
    pub fn failure(err: String, iterations: usize, tool_calls_made: usize) -> (r: Self)
        ensures
            r.is_failure(err, iterations, tool_calls_made),
            r.error_kind == error_kind(text::lowercased(err@), err@.len() == 0),
            text::is_ascii_text(err@) ==> r.error_kind == error_kind(
                text::ascii_lowercased(err@),
                err@.len() == 0,
            ),
    {
        let kind = AgentErrorKind::from_error_message(err.as_str());
        AgentOutput::failure_with_kind(err, iterations, tool_calls_made, kind)
    }

    /// What an agent hands back that has failed.
    pub open spec fn is_failure(
        self,
        err: String,
        iterations: usize,
        tool_calls_made: usize,
    ) -> bool {
        &&& self.summary@.len() == 0
        &&& self.iterations == iterations
        &&& self.tool_calls_made == tool_calls_made
        &&& self.tool_names@.len() == 0
        &&& !self.success
        &&& self.error_message == Some(err)
        &&& self.duration_ms == 0
        &&& self.tool_trace is None
    }

    /// What an agent hands back that has failed with an error of that kind.
    pub fn failure_with_kind(
        err: String,
        iterations: usize,
        tool_calls_made: usize,
        kind: AgentErrorKind,
    ) -> (r: Self)
        ensures
            r.is_failure(err, iterations, tool_calls_made),
            r.error_kind == kind,
    {
        AgentOutput {
            summary: String::new(),
            iterations,
            tool_calls_made,
            tool_names: Vec::new(),
            success: false,
            error_message: Some(err),
            error_kind: kind,
            duration_ms: 0,
            tool_trace: None,
        }
    }
}

/// What kind of error a text speaks of is told by its words: of a timeout before all else,
/// then of cancelling, of a tool, of the model, of delegation, of checkpoints and of
/// resources; a text without any of these words is of no known kind, and no text is no error.
pub proof fn errors_are_told_by_their_words(s: Seq<char>, empty: bool)
    ensures
        ({
            let k = error_kind(s, empty);
            let timeout = text::contains(s, "timeout"@) || text::contains(s, "timed out"@);
            let cancel = text::contains(s, "cancel"@);
            let tool = text::contains(s, "tool"@);
            let model = text::contains(s, "api"@) || text::contains(s, "llm"@) || text::contains(
                s,
                "model"@,
            );
            let delegation = text::contains(s, "delegat"@) || text::contains(s, "spawn"@);
            let checkpoint = text::contains(s, "checkpoint"@) || text::contains(s, "resume"@);
            let resource = text::contains(s, "resource"@) || text::contains(s, "quota"@)
                || text::contains(s, "token"@);
            &&& k is Timeout == timeout
            &&& !timeout ==> (k is Cancelled == cancel)
            &&& !timeout && !cancel ==> (k is ToolError == tool)
            &&& !timeout && !cancel && !tool ==> (k is ModelError == model)
            &&& !timeout && !cancel && !tool && !model ==> (k is DelegationError == delegation)
            &&& !timeout && !cancel && !tool && !model && !delegation ==> (k is CheckpointError == checkpoint)
            &&& !timeout && !cancel && !tool && !model && !delegation && !checkpoint ==> (k is ResourceExhausted == resource)
            &&& !timeout && !cancel && !tool && !model && !delegation && !checkpoint && !resource
                ==> k == if empty {
                AgentErrorKind::NoError
            } else {
                AgentErrorKind::Unknown
            }
        }),
{
}

/// A run that failed says with what, how many rounds and calls it made, and gives no answer.
pub proof fn a_failure_gives_its_reason(o: AgentOutput, err: String, rounds: usize, calls: usize)
    requires
        o.is_failure(err, rounds, calls),
    ensures
        !o.success,
        o.error_message == Some(err),
        o.summary@.len() == 0,
        o.iterations == rounds,
        o.tool_calls_made == calls,
        o.tool_names@.len() == 0,
        o.tool_trace is None,
        o.duration_ms == 0,
{
}

} // verus!

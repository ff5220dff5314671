//! An agent in a process of its own, which hears its host on one stream and speaks on
//! another.
use vstd::prelude::*;

use crate::agent;
use crate::agent::{AgentErrorKind, AgentOutput};
use crate::agent_loop::types::AgentRunResult;
use crate::errors::LoomError;
use crate::json;
use crate::json::codec;
use crate::json::codec::{parse, to_text};
use crate::json::{add_field, Json, JsonModel};
use crate::text;
use crate::text::{same_text, trim_text};

verus! {

broadcast use crate::json::fields_model_push;

/// What the host says.
#[derive(Debug, PartialEq, Eq)]
pub enum HostCommand {
    /// A message to the agent.
    Message(Json),
    /// The agent is to stop.
    Stop,
}

/// What is heard of the host.
#[derive(Debug, PartialEq, Eq)]
pub enum Heard {
    /// An empty line.
    Nothing,
    Command(HostCommand),
    /// A line that says nothing that is known.
    Unknown,
}

/// What is heard in a line.
pub enum HeardModel {
    Nothing,
    Message(JsonModel),
    Stop,
    Unknown,
}

impl View for Heard {
    type V = HeardModel;

    open spec fn view(&self) -> HeardModel {
        match self {
            Heard::Nothing => HeardModel::Nothing,
            Heard::Command(HostCommand::Message(p)) => HeardModel::Message(p@),
            Heard::Command(HostCommand::Stop) => HeardModel::Stop,
            Heard::Unknown => HeardModel::Unknown,
        }
    }
}

/// What a value says.
pub open spec fn said(value: JsonModel) -> HeardModel {
    match value.at("type"@).as_str() {
        Some(t) => if t == "stop"@ {
            HeardModel::Stop
        } else if t == "message"@ {
            match value.get("payload"@) {
                Some(p) => HeardModel::Message(p),
                None => HeardModel::Unknown,
            }
        } else {
            HeardModel::Unknown
        },
        None => HeardModel::Unknown,
    }
}

/// What is heard in a line.
pub open spec fn heard(line: Seq<char>) -> HeardModel {
    if text::trim(line).len() == 0 {
        HeardModel::Nothing
    } else {
        match codec::parsed(line) {
            Ok(value) => said(value),
            Err(_) => HeardModel::Unknown,
        }
    }
}

/// What a value says.
pub fn command_of(value: &Json) -> (r: Heard)
    ensures
        r@ == said(value@),
{
    match value.str_field("type") {
        Some(t) => if same_text(t, "stop") {
            Heard::Command(HostCommand::Stop)
        } else if same_text(t, "message") {
            match value.get("payload") {
                Some(p) => Heard::Command(HostCommand::Message(p.clone())),
                None => Heard::Unknown,
            }
        } else {
            Heard::Unknown
        },
        None => Heard::Unknown,
    }
}

/// What is heard in a line.
pub fn hear(line: &str) -> (r: Heard)
    ensures
        r@ == heard(line@),
{
    if trim_text(line).as_str().unicode_len() == 0 {
        return Heard::Nothing;
    }
    match parse(line) {
        Ok(value) => command_of(&value),
        Err(_) => Heard::Unknown,
    }
}

/// What comes from the stream of the host.
#[derive(Debug, PartialEq, Eq)]
pub enum HostInput {
    Line(Heard),
    /// The stream has ended, or cannot be read any more.
    Ended,
}

/// Whether the agent has been told to stop.
#[derive(Debug, Clone, Copy, PartialEq, Eq, Structural)]
pub struct GuestState {
    pub stopping: bool,
}

/// What is done.
#[derive(Debug, Clone, Copy, PartialEq, Eq, Structural)]
pub struct GuestStep {
    /// The agent is told to stop.
    pub stop: bool,
    /// The host is not heard any more.
    pub leave: bool,
}

/// The host wants the agent to stop.
pub open spec fn wants_stop(input: HostInput) -> bool {
    match input {
        HostInput::Line(h) => h@ is Stop,
        HostInput::Ended => true,
    }
}

impl GuestState {
    /// An agent that runs.
    pub fn new() -> (r: Self)
        ensures
            !r.stopping,
    {
        GuestState { stopping: false }
    }

    /// What is done with what comes from the host: the agent is told to stop once, when
    /// the host says so or is gone.
    pub fn on_input(&mut self, input: &HostInput) -> (r: GuestStep)
        ensures
            r.stop == (wants_stop(*input) && !old(self).stopping),
            r.leave == (*input is Ended),
            final(self).stopping == (old(self).stopping || wants_stop(*input)),
    {
        let (wants, leave) = match input {
            HostInput::Line(Heard::Command(HostCommand::Stop)) => (true, false),
            HostInput::Line(_) => (false, false),
            HostInput::Ended => (true, true),
        };
        let stop = wants && !self.stopping;
        if wants {
            self.stopping = true;
        }
        GuestStep { stop, leave }
    }
}

/// What the guest says, as a line.
pub open spec fn spoken(kind: Seq<char>, payload: JsonModel) -> Seq<char> {
    codec::compact(
        JsonModel::Object(seq![("type"@, JsonModel::Str(kind)), ("payload"@, payload)]),
    ) + "\n"@
}

/// What the guest says, as a line.
fn speak(kind: &str, payload: Json) -> (r: String)
    ensures
        r@ == spoken(kind@, payload@),
{
    let ghost p = payload@;
    let mut o: Vec<(String, Json)> = Vec::new();
    add_field(&mut o, "type", Json::string(kind));
    add_field(&mut o, "payload", payload);
    let value = Json::object(o);
    assert(value@->Object_0 =~= seq![("type"@, JsonModel::Str(kind@)), ("payload"@, p)]);
    let mut s = to_text(&value);
    s.append("\n");
    s
}

/// The line that tells how far the agent has come.
pub fn stream_line(payload: Json) -> (r: String)
    ensures
        r@ == spoken("stream"@, payload@),
{
    speak("stream", payload)
}

/// The line that tells what the agent hands back.
pub fn output_line(payload: Json) -> (r: String)
    ensures
        r@ == spoken("output"@, payload@),
{
    speak("output", payload)
}

/// How the run of a guest ends.
#[derive(Debug, PartialEq, Eq)]
pub enum GuestRun {
    /// The host has stopped it.
    Stopped,
    /// It has come to an end.
    Ended(Result<AgentRunResult, LoomError>),
    /// It has broken down.
    Broken(String),
}

/// Why a run of a guest has failed; nothing where it has not.
pub open spec fn guest_failure(run: GuestRun) -> Option<Seq<char>> {
    match run {
        GuestRun::Stopped => Some("stopped by host"@),
        GuestRun::Ended(Ok(_)) => None,
        GuestRun::Ended(Err(e)) => Some(e.text()),
        GuestRun::Broken(e) => Some("task panic: "@ + e@),
    }
}

/// What a guest hands back.
pub fn guest_output(run: GuestRun) -> (r: AgentOutput)
    ensures
        match guest_failure(run) {
            Some(m) => r.summary@.len() == 0 && r.iterations == 0 && r.tool_calls_made == 0
                && r.tool_names@.len() == 0 && !r.success && r.error_message.deep_view() == Some(m)
                && r.duration_ms == 0 && r.tool_trace is None && r.error_kind == agent::error_kind(
                text::lowercased(m),
                m.len() == 0,
            ),
            None => run matches GuestRun::Ended(Ok(x)) && r == (AgentOutput {
                summary: x.final_response,
                iterations: x.iterations,
                tool_calls_made: x.tool_calls_made,
                tool_names: x.tool_names,
                success: true,
                error_message: None,
                error_kind: AgentErrorKind::NoError,
                duration_ms: x.duration_ms,
                tool_trace: x.tool_trace,
            }),
        },
{
    match run {
        GuestRun::Stopped => AgentOutput::failure(String::from_str("stopped by host"), 0, 0),
        GuestRun::Ended(Ok(x)) => AgentOutput::success_with_meta(
            x.final_response,
            x.iterations,
            x.tool_calls_made,
            x.tool_names,
            x.duration_ms,
            x.tool_trace,
        ),
        GuestRun::Ended(Err(e)) => AgentOutput::failure(e.to_text(), 0, 0),
        GuestRun::Broken(e) => {
            let mut s = String::from_str("task panic: ");
            s.append(e.as_str());
            AgentOutput::failure(s, 0, 0)
        },
    }
}

/// The states of an agent that hears so much of its host.
pub open spec fn stopping_after(stopping: bool, inputs: Seq<HostInput>) -> bool
    decreases inputs.len(),
{
    if inputs.len() == 0 {
        stopping
    } else {
        stopping_after(stopping, inputs.drop_last()) || wants_stop(inputs.last())
    }
}

/// How often an agent that hears so much of its host is told to stop.
pub open spec fn stops_told(stopping: bool, inputs: Seq<HostInput>) -> nat
    decreases inputs.len(),
{
    if inputs.len() == 0 {
        0
    } else {
        stops_told(stopping, inputs.drop_last()) + if wants_stop(inputs.last())
            && !stopping_after(stopping, inputs.drop_last()) {
            1nat
        } else {
            0nat
        }
    }
}

/// An agent is told to stop once at most, whatever its host says, and once where its host
/// wants it to.
pub proof fn an_agent_is_stopped_once(inputs: Seq<HostInput>)
    ensures
        stops_told(false, inputs) == if exists|i: int|
            0 <= i < inputs.len() && wants_stop(#[trigger] inputs[i]) {
            1nat
        } else {
            0nat
        },
        stopping_after(false, inputs) == (stops_told(false, inputs) == 1),
    decreases inputs.len(),
{
    if inputs.len() > 0 {
        let before = inputs.drop_last();
        an_agent_is_stopped_once(before);
        if exists|i: int| 0 <= i < before.len() && wants_stop(#[trigger] before[i]) {
            let i = choose|i: int| 0 <= i < before.len() && wants_stop(#[trigger] before[i]);
            assert(wants_stop(inputs[i]));
        }
        if wants_stop(inputs.last()) {
            assert(wants_stop(inputs[inputs.len() - 1]));
        }
        if exists|i: int| 0 <= i < inputs.len() && wants_stop(#[trigger] inputs[i]) {
            let i = choose|i: int| 0 <= i < inputs.len() && wants_stop(#[trigger] inputs[i]);
            if i < before.len() {
                assert(wants_stop(before[i]));
            }
        }
    }
}

/// What a guest hears from its host: a message with what it carries, or that it is to stop; a
/// blank line is nothing, and anything else is not understood.
pub proof fn what_a_guest_hears(line: Seq<char>, value: JsonModel, p: JsonModel)
    ensures
        text::trim(line).len() == 0 ==> heard(line) is Nothing,
        text::trim(line).len() > 0 && codec::parsed(line) is Err ==> heard(line) is Unknown,
        text::trim(line).len() > 0 && codec::parsed(line) == Ok::<JsonModel, Seq<char>>(value) && value.get(
            "type"@,
        ) == Some(JsonModel::Str("stop"@)) ==> heard(line) is Stop,
        text::trim(line).len() > 0 && codec::parsed(line) == Ok::<JsonModel, Seq<char>>(value) && value.get(
            "type"@,
        ) == Some(JsonModel::Str("message"@)) && value.get("payload"@) == Some(p) ==> heard(line)
            == HeardModel::Message(p),
        heard(line) is Stop ==> (codec::parsed(line) matches Ok(v) && v.get("type"@) == Some(
            JsonModel::Str("stop"@),
        )),
        heard(line) matches HeardModel::Message(q) ==> (codec::parsed(line) matches Ok(v)
            && v.get("type"@) == Some(JsonModel::Str("message"@)) && v.get("payload"@) == Some(q)),
{
    reveal_strlit("stop");
    reveal_strlit("message");
    assert("stop"@.len() == 4);
    assert("message"@.len() == 7);
}

/// What a guest says is one line: the text of an object that says what kind of thing it is and
/// holds it.
pub proof fn what_a_guest_says(kind: Seq<char>, payload: JsonModel)
    ensures
        exists|o: JsonModel|
            {
                &&& spoken(kind, payload) == #[trigger] codec::compact(o) + "\n"@
                &&& o.get("type"@) == Some(JsonModel::Str(kind))
                &&& o.get("payload"@) == Some(payload)
            },
{
    let o = JsonModel::Object(seq![("type"@, JsonModel::Str(kind)), ("payload"@, payload)]);
    let f = o->Object_0;
    reveal_strlit("type");
    reveal_strlit("payload");
    assert("type"@.len() == 4);
    assert("payload"@.len() == 7);
    json::a_field_is_found(f, 0);
    json::a_field_is_found(f, 1);
    assert(spoken(kind, payload) == codec::compact(o) + "\n"@);
}

/// A guest fails where it was stopped, where its run failed, with that error, and where it
/// broke; a run that has ended well is no failure.
pub proof fn how_a_guest_fails(r: AgentRunResult, e: LoomError, m: String)
    ensures
        guest_failure(GuestRun::Ended(Ok(r))) is None,
        guest_failure(GuestRun::Ended(Err(e))) == Some(e.text()),
        guest_failure(GuestRun::Stopped) is Some,
        guest_failure(GuestRun::Broken(m)) matches Some(t) && text::ends_with(t, m@),
{
    let t = "task panic: "@ + m@;
    assert(t.subrange(t.len() - m@.len(), t.len() as int) =~= m@);
}

/// A guest stops when it is told to and when nothing more comes; a message stops nothing.
pub proof fn what_stops_a_guest(h: Heard, p: JsonModel)
    ensures
        wants_stop(HostInput::Ended),
        h@ == HeardModel::Stop ==> wants_stop(HostInput::Line(h)),
        h@ == HeardModel::Message(p) ==> !wants_stop(HostInput::Line(h)),
        h@ == HeardModel::Unknown ==> !wants_stop(HostInput::Line(h)),
{
}

} // verus!

//! One turn of a run.
use vstd::prelude::*;

use crate::agent_loop::types;
use crate::agent_loop::types::{find_interrupt_call, LoopContext, LoopModel};
use crate::capability;
use crate::capability::empty_object;
use crate::context::token;
use crate::context::token::estimate_tokens;
use crate::errors::LoomError;
use crate::json;
use crate::json::equal;
use crate::json::{add_field, Json, JsonModel};
use crate::llm;
use crate::llm::{
    clone_calls, ChatMessage, ChatResponse, MessageModel, Role, ToolCall, ToolCallModel,
    TokenUsage,
};
use crate::result::ProgressEvent;
use crate::text;
use crate::text::decimal_text;
use crate::tools::dispatch::{CallResultModel, ToolCallResult};
use crate::tools::guardrails;
use crate::tools::guardrails::{
    CallLog, Failures, GuardrailVerdict, ToolGuardrailController, VerdictModel,
};

verus! {

broadcast use {
    crate::seqs::group_views,
    crate::json::items_model_push,
    crate::json::fields_model_push,
};

// ---------- beginning a round ----------

/// A run whose next round has begun.
pub open spec fn begun(run: LoopModel) -> LoopModel {
    LoopModel { iterations: run.iterations + 1, ..run }
}

/// A run whose next round is one too many.
pub open spec fn is_last_round_over(run: LoopModel, max_iterations: int) -> bool {
    begun(run).iterations > max_iterations
}

/// Begins a round; whether it is one too many.
pub fn begin_iteration(ctx: &mut LoopContext, max_iterations: usize) -> (r: bool)
    requires
        old(ctx).iterations < usize::MAX,
    ensures
        final(ctx)@ == begun(old(ctx)@),
        r == is_last_round_over(old(ctx)@, max_iterations as int),
{
    ctx.iterations = ctx.iterations + 1;
    ctx.iterations > max_iterations
}

/// A choice that a human is shown.
pub open spec fn option_json(label: Seq<char>, action: Seq<char>) -> JsonModel {
    JsonModel::Object(
        seq![
            ("label"@, JsonModel::Str(label)),
            ("value"@, JsonModel::Object(seq![("action"@, JsonModel::Str(action))])),
        ],
    )
}

/// A choice that a human is shown.
fn option_to_json(label: &str, action: &str) -> (r: Json)
    ensures
        r@ == option_json(label@, action@),
{
    let mut v: Vec<(String, Json)> = Vec::new();
    add_field(&mut v, "action", Json::string(action));
    let v = Json::object(v);
    assert(v@->Object_0 =~= seq![("action"@, JsonModel::Str(action@))]);
    let mut o: Vec<(String, Json)> = Vec::new();
    add_field(&mut o, "label", Json::string(label));
    add_field(&mut o, "value", v);
    let r = Json::object(o);
    assert(r@->Object_0 =~= option_json(label@, action@)->Object_0);
    r
}

/// What a human is shown of a run that has had too many rounds.
pub open spec fn too_many_rounds(run: LoopModel, max_iterations: int) -> JsonModel {
    JsonModel::Object(
        seq![
            ("type"@, JsonModel::Str("max_iterations"@)),
            (
                "message"@,
                JsonModel::Str(
                    "已达到最大迭代次数（"@ + text::decimal(max_iterations as nat)
                        + "），请选择下一步操作："@,
                ),
            ),
            ("iterations"@, JsonModel::Int(run.iterations)),
            ("max_iterations"@, JsonModel::Int(max_iterations)),
            ("tool_calls_made"@, JsonModel::Int(run.tool_calls_made)),
            (
                "options"@,
                JsonModel::Array(
                    seq![
                        option_json("继续执行"@, "continue"@),
                        option_json("停止并总结"@, "summarize"@),
                    ],
                ),
            ),
        ],
    )
}

/// What a human is shown of a run that has had too many rounds: it can go on, or sum up.
pub fn max_iterations_value(ctx: &LoopContext, max_iterations: usize) -> (r: Json)
    ensures
        r@ == too_many_rounds(ctx@, max_iterations as int),
{
    let mut message = String::from_str("已达到最大迭代次数（");
    message.append(decimal_text(max_iterations as u64).as_str());
    message.append("），请选择下一步操作：");
    let mut options: Vec<Json> = Vec::new();
    options.push(option_to_json("继续执行", "continue"));
    options.push(option_to_json("停止并总结", "summarize"));
    assert(json::items_model(options@) =~= seq![
        option_json("继续执行"@, "continue"@),
        option_json("停止并总结"@, "summarize"@),
    ]);
    let mut o: Vec<(String, Json)> = Vec::new();
    add_field(&mut o, "type", Json::string("max_iterations"));
    add_field(&mut o, "message", Json::Str(message));
    add_field(&mut o, "iterations", Json::count(ctx.iterations as u64));
    add_field(&mut o, "max_iterations", Json::count(max_iterations as u64));
    add_field(&mut o, "tool_calls_made", Json::count(ctx.tool_calls_made as u64));
    add_field(&mut o, "options", Json::array(options));
    let r = Json::object(o);
    assert(r@->Object_0 =~= too_many_rounds(ctx@, max_iterations as int)->Object_0);
    r
}

/// The messages with what is recalled at their end, where anything is.
pub fn push_recall(ctx: &mut LoopContext, recall: String)
    ensures
        final(ctx)@ == (LoopModel {
            messages: if recall@.len() == 0 {
                old(ctx)@.messages
            } else {
                old(ctx)@.messages.push(llm::plain_message(Role::System, recall@))
            },
            ..old(ctx)@
        }),
{
    if recall.as_str().unicode_len() > 0 {
        ctx.messages.push(ChatMessage::system(recall));
    }
}

/// The tokens that a call of the model took: as reported, else as estimated.
pub fn usage_of(usage: &Option<TokenUsage>, messages: &[ChatMessage]) -> (r: (usize, usize))
    ensures
        match *usage {
            Some(u) => r == (u.prompt_tokens, u.completion_tokens),
            None => r.0 == token::word(token::tokens_of(messages.deep_view())) && r.1 == 0,
        },
{
    match usage {
        Some(u) => (u.prompt_tokens, u.completion_tokens),
        None => (estimate_tokens(messages), 0),
    }
}

// ---------- the answer of the model ----------

/// The results of calls, as messages.
pub open spec fn result_messages(results: Seq<(Seq<char>, Seq<char>)>) -> Seq<MessageModel> {
    results.map_values(|r: (Seq<char>, Seq<char>)| llm::tool_message(r.0, r.1))
}

/// The same result for every call.
pub open spec fn same_result(
    calls: Seq<ToolCallModel>,
    content: Seq<char>,
) -> Seq<(Seq<char>, Seq<char>)> {
    calls.map_values(|c: ToolCallModel| (c.id, content))
}

/// The tools of calls.
pub open spec fn names_of(calls: Seq<ToolCallModel>) -> Seq<Seq<char>> {
    calls.map_values(|c: ToolCallModel| c.name)
}

/// What follows the answer of the model.
#[derive(Debug, PartialEq, Eq)]
pub enum TurnPlan {
    /// The run finishes with that response.
    Finish(String),
    /// A human is asked.
    Interrupt(Json),
    /// A guard ends the run with that response.
    Halt(String),
    /// No tool is called, and the model is asked again.
    Skip,
    /// Tools are called; the other calls have their results. A guard may warn the model.
    Execute { calls: Vec<ToolCall>, rejected: Vec<(String, String)>, warning: Option<String> },
}

/// What follows the answer of the model.
pub enum PlanModel {
    Finish(Seq<char>),
    Interrupt(JsonModel),
    Halt(Seq<char>),
    Skip,
    Execute {
        calls: Seq<ToolCallModel>,
        rejected: Seq<(Seq<char>, Seq<char>)>,
        warning: Option<Seq<char>>,
    },
}

impl View for TurnPlan {
    type V = PlanModel;

    open spec fn view(&self) -> PlanModel {
        match self {
            TurnPlan::Finish(s) => PlanModel::Finish(s@),
            TurnPlan::Interrupt(v) => PlanModel::Interrupt(v@),
            TurnPlan::Halt(s) => PlanModel::Halt(s@),
            TurnPlan::Skip => PlanModel::Skip,
            TurnPlan::Execute { calls, rejected, warning } => PlanModel::Execute {
                calls: calls.deep_view(),
                rejected: guardrails::answers(rejected@),
                warning: warning.deep_view(),
            },
        }
    }
}

/// The response of a model that gives none.
pub const EMPTY_RESPONSE: &'static str = "(empty response)";

/// The response of a run that a guard ends.
pub open spec fn halt_text(message: Seq<char>) -> Seq<char> {
    "Execution halted by guardrail: "@ + message
}

/// What a human is shown for a call that asks one; an object without fields where the
/// call shows nothing.
pub open spec fn shown_value(call: ToolCallModel) -> JsonModel {
    match call.arguments.get("value"@) {
        Some(v) => v,
        None => capability::no_fields(),
    }
}

/// The calls of a round that are to be made: of tools that there are, and each once.
pub open spec fn calls_to_make(
    deduplicate: bool,
    calls: Seq<ToolCallModel>,
    names: Seq<Seq<char>>,
) -> Seq<ToolCallModel> {
    let valid = calls.filter(|c: ToolCallModel| names.contains(c.name));
    if deduplicate {
        guardrails::without_repeats(valid)
    } else {
        valid
    }
}

/// What the answer of the model does to a run, to what is remembered of its calls, and
/// what follows.
pub open spec fn answer(
    run: LoopModel,
    config: crate::config::GuardrailConfig,
    log: CallLog,
    content: Option<Seq<char>>,
    calls: Seq<ToolCallModel>,
    names: Seq<Seq<char>>,
) -> (LoopModel, CallLog, PlanModel) {
    if calls.len() == 0 {
        let response = match content {
            Some(c) => c,
            None => EMPTY_RESPONSE@,
        };
        (
            LoopModel {
                messages: run.messages.push(llm::plain_message(Role::Assistant, response)),
                ..run
            },
            log,
            PlanModel::Finish(response),
        )
    } else {
        let asked = run.messages.push(llm::calling_message(calls));
        match types::call_named(calls, "interrupt"@, 0) {
            Some(call) => (
                LoopModel {
                    messages: asked,
                    tool_calls_made: run.tool_calls_made + calls.len(),
                    ..run
                },
                log,
                PlanModel::Interrupt(shown_value(call)),
            ),
            None => {
                let made = calls_to_make(config.deduplicate, calls, names);
                let rejected = guardrails::rejections(calls, names);
                let (next, verdict) = guardrails::check_calls(config, log, made, 0);
                match verdict {
                    VerdictModel::Halt(message) => (
                        LoopModel {
                            messages: asked + result_messages(same_result(made, message)),
                            tool_calls_made: run.tool_calls_made + made.len(),
                            tool_names: run.tool_names + names_of(made),
                            ..run
                        },
                        next,
                        PlanModel::Halt(halt_text(message)),
                    ),
                    _ => if made.len() == 0 {
                        (
                            LoopModel {
                                messages: asked + result_messages(rejected),
                                tool_calls_made: run.tool_calls_made + rejected.len(),
                                ..run
                            },
                            next,
                            PlanModel::Skip,
                        )
                    } else {
                        (
                            run,
                            next,
                            PlanModel::Execute {
                                calls: made,
                                rejected,
                                warning: guardrails::warning_of(verdict),
                            },
                        )
                    },
                }
            },
        }
    }
}

/// Adds the same result for every call.
fn push_same(messages: &mut Vec<ChatMessage>, calls: &[ToolCall], content: &str)
    ensures
        final(messages).deep_view() == old(messages).deep_view() + result_messages(
            same_result(calls.deep_view(), content@),
        ),
{
    let ghost before = messages.deep_view();
    let ghost all = result_messages(same_result(calls.deep_view(), content@));
    let mut i: usize = 0;
    assert(before + all.take(0) =~= before);
    while i < calls.len()
        invariant
            i <= calls@.len(),
            all == result_messages(same_result(calls.deep_view(), content@)),
            messages.deep_view() == before + all.take(i as int),
        decreases calls@.len() - i,
    {
        let m = ChatMessage::tool(calls[i].id.clone(), String::from_str(content));
        assert(m@ == all[i as int]);
        messages.push(m);
        i += 1;
        assert(before + all.take(i as int) =~= (before + all.take(i - 1)).push(all[i - 1]));
    }
    assert(all.take(i as int) =~= all);
}

/// Adds results.
fn push_results(messages: &mut Vec<ChatMessage>, results: &[(String, String)])
    ensures
        final(messages).deep_view() == old(messages).deep_view() + result_messages(
            guardrails::answers(results@),
        ),
{
    let ghost before = messages.deep_view();
    let ghost all = result_messages(guardrails::answers(results@));
    let mut i: usize = 0;
    assert(before + all.take(0) =~= before);
    while i < results.len()
        invariant
            i <= results@.len(),
            all == result_messages(guardrails::answers(results@)),
            messages.deep_view() == before + all.take(i as int),
        decreases results@.len() - i,
    {
        let m = ChatMessage::tool(results[i].0.clone(), results[i].1.clone());
        assert(m@ == all[i as int]);
        messages.push(m);
        i += 1;
        assert(before + all.take(i as int) =~= (before + all.take(i - 1)).push(all[i - 1]));
    }
    assert(all.take(i as int) =~= all);
}

/// Adds the tools of calls.
fn push_names(names: &mut Vec<String>, calls: &[ToolCall])
    ensures
        final(names).deep_view() == old(names).deep_view() + names_of(calls.deep_view()),
{
    let ghost before = names.deep_view();
    let ghost all = names_of(calls.deep_view());
    let mut i: usize = 0;
    assert(before + all.take(0) =~= before);
    while i < calls.len()
        invariant
            i <= calls@.len(),
            all == names_of(calls.deep_view()),
            names.deep_view() == before + all.take(i as int),
        decreases calls@.len() - i,
    {
        let n = calls[i].name.clone();
        assert(n@ == all[i as int]);
        names.push(n);
        i += 1;
        assert(before + all.take(i as int) =~= (before + all.take(i - 1)).push(all[i - 1]));
    }
    assert(all.take(i as int) =~= all);
}

/// Not more calls are left than there were.
proof fn no_calls_are_added(
    deduplicate: bool,
    calls: Seq<ToolCallModel>,
    names: Seq<Seq<char>>,
)
    ensures
        calls_to_make(deduplicate, calls, names).len() <= calls.len(),
        guardrails::rejections(calls, names).len() <= calls.len(),
{
    guardrails::calls_are_made_or_rejected(calls, names);
    let valid = calls.filter(|c: ToolCallModel| names.contains(c.name));
    fewer_without_repeats(valid);
}

/// Leaving out repeats adds no call.
proof fn fewer_without_repeats(calls: Seq<ToolCallModel>)
    ensures
        guardrails::without_repeats(calls).len() <= calls.len(),
    decreases calls.len(),
{
    if calls.len() > 0 {
        fewer_without_repeats(calls.drop_last());
    }
}

/// Takes in the answer of the model; what follows.
pub fn take_response(
    ctx: &mut LoopContext,
    resp: &ChatResponse,
    guard: &mut ToolGuardrailController,
    valid_names: &[String],
) -> (r: TurnPlan)
    requires
        old(guard).wf(),
        old(guard).can_count(resp.tool_calls@.len() as int),
        old(ctx).tool_calls_made + resp.tool_calls@.len() <= usize::MAX,
    ensures
        final(guard).wf(),
        final(guard).config == old(guard).config,
        final(guard).failures() == old(guard).failures(),
        (final(ctx)@, final(guard).log(), r@) == answer(
            old(ctx)@,
            old(guard).config,
            old(guard).log(),
            resp.content.deep_view(),
            resp.tool_calls.deep_view(),
            valid_names.deep_view(),
        ),
{
    let ghost run = ctx@;
    let ghost calls = resp.tool_calls.deep_view();
    let ghost names = valid_names.deep_view();
    if resp.tool_calls.len() == 0 {
        let response = match &resp.content {
            Some(c) => c.clone(),
            None => String::from_str(EMPTY_RESPONSE),
        };
        ctx.messages.push(ChatMessage::assistant(response.clone()));
        return TurnPlan::Finish(response);
    }
    if let Some(call) = find_interrupt_call(resp.tool_calls.as_slice()) {
        let value = match call.arguments.get("value") {
            Some(v) => v.clone(),
            None => empty_object(),
        };
        ctx.messages.push(
            ChatMessage::assistant_with_tool_calls(clone_calls(resp.tool_calls.as_slice())),
        );
        ctx.tool_calls_made = ctx.tool_calls_made + resp.tool_calls.len();
        return TurnPlan::Interrupt(value);
    }
    let (valid, rejected) = guard.validate_tool_names(
        clone_calls(resp.tool_calls.as_slice()),
        valid_names,
    );
    let made = guard.deduplicate(valid);
    proof {
        assert(made.deep_view() == calls_to_make(guard.config.deduplicate, calls, names));
        no_calls_are_added(guard.config.deduplicate, calls, names);
        assert(guardrails::answers(rejected@).len() == rejected@.len());
    }
    let verdict = guard.check_and_record(made.as_slice());
    if let GuardrailVerdict::Halt(message) = &verdict {
        ctx.messages.push(
            ChatMessage::assistant_with_tool_calls(clone_calls(resp.tool_calls.as_slice())),
        );
        push_same(&mut ctx.messages, made.as_slice(), message.as_str());
        ctx.tool_calls_made = ctx.tool_calls_made + made.len();
        push_names(&mut ctx.tool_names, made.as_slice());
        let mut response = String::from_str("Execution halted by guardrail: ");
        response.append(message.as_str());
        return TurnPlan::Halt(response);
    }
    if made.len() == 0 {
        ctx.messages.push(
            ChatMessage::assistant_with_tool_calls(clone_calls(resp.tool_calls.as_slice())),
        );
        push_results(&mut ctx.messages, rejected.as_slice());
        ctx.tool_calls_made = ctx.tool_calls_made + rejected.len();
        return TurnPlan::Skip;
    }
    let warning = match verdict {
        GuardrailVerdict::Warn(message) => Some(message),
        _ => None,
    };
    TurnPlan::Execute { calls: made, rejected, warning }
}

// ---------- calling tools ----------

/// A run whose tools are about to be called.
pub open spec fn calling(
    run: LoopModel,
    calls: Seq<ToolCallModel>,
    rejected: nat,
) -> LoopModel {
    LoopModel {
        messages: run.messages.push(llm::calling_message(calls)),
        tool_calls_made: run.tool_calls_made + calls.len() + rejected,
        tool_names: run.tool_names + names_of(calls),
        ..run
    }
}

/// Notes that tools are about to be called.
pub fn begin_tools(ctx: &mut LoopContext, calls: &[ToolCall], rejected: usize)
    requires
        old(ctx).tool_calls_made + calls@.len() + rejected <= usize::MAX,
    ensures
        final(ctx)@ == calling(old(ctx)@, calls.deep_view(), rejected as nat),
{
    ctx.tool_calls_made = ctx.tool_calls_made + calls.len() + rejected;
    push_names(&mut ctx.tool_names, calls);
    ctx.messages.push(ChatMessage::assistant_with_tool_calls(clone_calls(calls)));
}

/// What follows once a run was to be stored before its tools are called.
#[derive(Debug, PartialEq, Eq)]
pub enum ToolStep {
    /// The run ends with that error.
    Abort(LoomError),
    /// The tools are called.
    Call(Vec<ToolCall>),
}

impl ToolStep {
    /// The calls that are made.
    pub open spec fn made(self) -> Seq<ToolCallModel> {
        match self {
            ToolStep::Abort(_) => Seq::empty(),
            ToolStep::Call(calls) => calls.deep_view(),
        }
    }
}

/// What follows once a run was to be stored before its tools are called: they are called
/// where it was stored, and none of them is where it could not be.
pub fn after_store(stored: Result<String, LoomError>, calls: Vec<ToolCall>) -> (r: ToolStep)
    ensures
        match stored {
            Ok(_) => r == ToolStep::Call(calls),
            Err(e) => r == ToolStep::Abort(e),
        },
        r.made() == if stored is Ok {
            calls.deep_view()
        } else {
            Seq::empty()
        },
{
    match stored {
        Ok(_) => ToolStep::Call(calls),
        Err(e) => ToolStep::Abort(e),
    }
}

/// The identifiers and contents of results.
pub open spec fn contents(results: Seq<CallResultModel>) -> Seq<(Seq<char>, Seq<char>)> {
    results.map_values(|r: CallResultModel| (r.tool_call_id, r.content))
}

/// The tools of results and whether they failed.
pub open spec fn outcomes_of(results: Seq<CallResultModel>) -> Seq<(Seq<char>, bool)> {
    results.map_values(|r: CallResultModel| (r.name, r.is_error))
}

/// The messages with a note at the end of the last, where that has a text.
pub open spec fn with_halt_note(msgs: Seq<MessageModel>, message: Seq<char>) -> Seq<
    MessageModel,
> {
    if msgs.len() > 0 && msgs.last().content is Some {
        msgs.update(
            msgs.len() - 1,
            msgs.last().with_content(
                Some(msgs.last().content->Some_0 + "\n\n[GUARDRAIL HALT] "@ + message),
            ),
        )
    } else {
        msgs
    }
}

/// What the model is told of a warning.
pub open spec fn warning_messages(warning: Option<Seq<char>>) -> Seq<MessageModel> {
    match warning {
        Some(w) => seq![llm::plain_message(Role::System, w)],
        None => Seq::empty(),
    }
}

/// What the results of tools do to a run and to its series of failures, and the response
/// with which a guard ends the run. Where it goes on, the model is told of a warning.
pub open spec fn after_tools(
    run: LoopModel,
    config: crate::config::GuardrailConfig,
    failures: Failures,
    results: Seq<CallResultModel>,
    rejected: Seq<(Seq<char>, Seq<char>)>,
    warning: Option<Seq<char>>,
) -> (LoopModel, Failures, Option<Seq<char>>) {
    let (next, verdict) = guardrails::take_results(config, failures, outcomes_of(results), 0);
    let answered = run.messages + result_messages(contents(results));
    match verdict {
        VerdictModel::Halt(message) => (
            LoopModel { messages: with_halt_note(answered, message), ..run },
            next,
            Some(halt_text(message)),
        ),
        _ => (
            LoopModel {
                messages: answered + result_messages(rejected) + warning_messages(warning),
                ..run
            },
            next,
            None,
        ),
    }
}

/// Adds the results of tools.
fn push_call_results(messages: &mut Vec<ChatMessage>, results: &[ToolCallResult])
    ensures
        final(messages).deep_view() == old(messages).deep_view() + result_messages(
            contents(results.deep_view()),
        ),
{
    let ghost before = messages.deep_view();
    let ghost all = result_messages(contents(results.deep_view()));
    let mut i: usize = 0;
    assert(before + all.take(0) =~= before);
    while i < results.len()
        invariant
            i <= results@.len(),
            all == result_messages(contents(results.deep_view())),
            messages.deep_view() == before + all.take(i as int),
        decreases results@.len() - i,
    {
        let m = ChatMessage::tool(results[i].tool_call_id.clone(), results[i].content.clone());
        assert(m@ == all[i as int]);
        messages.push(m);
        i += 1;
        assert(before + all.take(i as int) =~= (before + all.take(i - 1)).push(all[i - 1]));
    }
    assert(all.take(i as int) =~= all);
}

/// Takes in the results of tools. Where too many failures in a row end the run, its
/// response.
pub fn end_tools(
    ctx: &mut LoopContext,
    results: &[ToolCallResult],
    rejected: &[(String, String)],
    warning: Option<String>,
    guard: &mut ToolGuardrailController,
) -> (r: Option<String>)
    requires
        old(guard).wf(),
        old(guard).can_fail(results@.len() as int),
    ensures
        final(guard).wf(),
        final(guard).config == old(guard).config,
        final(guard).log() == old(guard).log(),
        (final(ctx)@, final(guard).failures(), r.deep_view()) == after_tools(
            old(ctx)@,
            old(guard).config,
            old(guard).failures(),
            results.deep_view(),
            guardrails::answers(rejected@),
            warning.deep_view(),
        ),
{
    let ghost all = outcomes_of(results.deep_view());
    let mut outcomes: Vec<(String, bool)> = Vec::new();
    let mut i: usize = 0;
    while i < results.len()
        invariant
            i <= results@.len(),
            all == outcomes_of(results.deep_view()),
            outcomes@.len() == i,
            forall|j: int|
                0 <= j < i ==> ((#[trigger] outcomes@[j]).0@, outcomes@[j].1) == all[j],
        decreases results@.len() - i,
    {
        outcomes.push((results[i].name.clone(), results[i].is_error));
        i += 1;
    }
    assert(guardrails::outcomes(outcomes@) =~= all);
    let verdict = guard.record_results(outcomes.as_slice());
    push_call_results(&mut ctx.messages, results);
    match verdict {
        GuardrailVerdict::Halt(message) => {
            let n: usize = ctx.messages.len();
            if n > 0 {
                let mut last = ctx.messages[n - 1].clone();
                if let Some(c) = &last.content {
                    let mut content = c.clone();
                    content.append("\n\n[GUARDRAIL HALT] ");
                    content.append(message.as_str());
                    last.content = Some(content);
                    ctx.messages.set(n - 1, last);
                }
            }
            let mut response = String::from_str("Execution halted by guardrail: ");
            response.append(message.as_str());
            Some(response)
        },
        _ => {
            push_results(&mut ctx.messages, rejected);
            let ghost answered = ctx.messages.deep_view();
            if let Some(w) = warning {
                ctx.messages.push(ChatMessage::system(w));
            }
            assert(ctx.messages.deep_view() =~= answered + warning_messages(warning.deep_view()));
            None
        },
    }
}

/// A checkpoint is due after the round.
pub open spec fn is_checkpoint_due(iterations: int, interval: int) -> bool {
    interval > 0 && iterations % interval == 0
}

/// Whether a checkpoint is due after the round.
pub fn checkpoint_due(iterations: usize, interval: usize) -> (r: bool)
    ensures
        r == is_checkpoint_due(iterations as int, interval as int),
{
    interval > 0 && iterations % interval == 0
}

/// What is reported of calls that begin.
pub fn start_events(calls: &[ToolCall]) -> (r: Vec<ProgressEvent>)
    ensures
        r@.len() == calls@.len(),
        forall|i: int|
            0 <= i < calls@.len() ==> (#[trigger] r@[i] matches ProgressEvent::ToolStart {
                tool,
                arguments,
            } && tool@ == calls@[i].name@ && arguments.deep_view() == if calls@[i].arguments@ is Null {
                None
            } else {
                Some(calls@[i].arguments@)
            }),
{
    let mut out: Vec<ProgressEvent> = Vec::new();
    let mut i: usize = 0;
    while i < calls.len()
        invariant
            i <= calls@.len(),
            out@.len() == i,
            forall|j: int|
                0 <= j < i ==> (#[trigger] out@[j] matches ProgressEvent::ToolStart {
                    tool,
                    arguments,
                } && tool@ == calls@[j].name@ && arguments.deep_view()
                    == if calls@[j].arguments@ is Null {
                    None
                } else {
                    Some(calls@[j].arguments@)
                }),
        decreases calls@.len() - i,
    {
        let arguments = if calls[i].arguments.is_null() {
            None
        } else {
            Some(calls[i].arguments.clone())
        };
        out.push(ProgressEvent::ToolStart { tool: calls[i].name.clone(), arguments });
        i += 1;
    }
    out
}

/// What is reported of calls that have ended.
pub fn end_events(results: &[ToolCallResult]) -> (r: Vec<ProgressEvent>)
    ensures
        r@.len() == results@.len(),
        forall|i: int|
            0 <= i < results@.len() ==> (#[trigger] r@[i] matches ProgressEvent::ToolEnd {
                tool,
                result,
                is_error,
            } && tool@ == results@[i].name@ && result@ == results@[i].content@ && is_error
                == results@[i].is_error),
{
    let mut out: Vec<ProgressEvent> = Vec::new();
    let mut i: usize = 0;
    while i < results.len()
        invariant
            i <= results@.len(),
            out@.len() == i,
            forall|j: int|
                0 <= j < i ==> (#[trigger] out@[j] matches ProgressEvent::ToolEnd {
                    tool,
                    result,
                    is_error,
                } && tool@ == results@[j].name@ && result@ == results@[j].content@ && is_error
                    == results@[j].is_error),
        decreases results@.len() - i,
    {
        out.push(
            ProgressEvent::ToolEnd {
                tool: results[i].name.clone(),
                result: results[i].content.clone(),
                is_error: results[i].is_error,
            },
        );
        i += 1;
    }
    out
}

// ---------- laws ----------

/// A turn only adds to the messages of a run: none that was there is changed or lost.
pub proof fn a_turn_only_adds_messages(
    run: LoopModel,
    config: crate::config::GuardrailConfig,
    log: CallLog,
    content: Option<Seq<char>>,
    calls: Seq<ToolCallModel>,
    names: Seq<Seq<char>>,
)
    ensures
        ({
            let (next, _, _) = answer(run, config, log, content, calls, names);
            &&& next.messages.len() >= run.messages.len()
            &&& next.messages.take(run.messages.len() as int) == run.messages
            &&& next.iterations == run.iterations
            &&& next.tool_calls_made >= run.tool_calls_made
        }),
{
    let (next, _, _) = answer(run, config, log, content, calls, names);
    assert(next.messages.take(run.messages.len() as int) =~= run.messages);
}

/// A call that asks a human is always answered by asking one: no tool of that answer is
/// called, and no guard stops it.
pub proof fn asking_a_human_comes_first(
    run: LoopModel,
    config: crate::config::GuardrailConfig,
    log: CallLog,
    content: Option<Seq<char>>,
    calls: Seq<ToolCallModel>,
    names: Seq<Seq<char>>,
    k: int,
)
    requires
        0 <= k < calls.len(),
        calls[k].name == "interrupt"@,
    ensures
        answer(run, config, log, content, calls, names).2 is Interrupt,
        answer(run, config, log, content, calls, names).1 == log,
{
    named_call_is_found(calls, "interrupt"@, 0, k);
}

/// A call of that name is found.
proof fn named_call_is_found(calls: Seq<ToolCallModel>, name: Seq<char>, i: int, k: int)
    requires
        0 <= i <= k < calls.len(),
        calls[k].name == name,
    ensures
        types::call_named(calls, name, i) is Some,
    decreases k - i,
{
    if i < k && calls[i].name != name {
        named_call_is_found(calls, name, i + 1, k);
    }
}

/// Tools are called only where there are calls of tools that the agent has; none of them is
/// unknown.
pub proof fn only_known_tools_are_called(
    run: LoopModel,
    config: crate::config::GuardrailConfig,
    log: CallLog,
    content: Option<Seq<char>>,
    calls: Seq<ToolCallModel>,
    names: Seq<Seq<char>>,
)
    ensures
        answer(run, config, log, content, calls, names).2 matches PlanModel::Execute {
            calls: made,
            rejected,
            warning,
        } ==> made.len() > 0 && forall|i: int|
            0 <= i < made.len() ==> names.contains((#[trigger] made[i]).name),
{
    let valid = calls.filter(|c: ToolCallModel| names.contains(c.name));
    let made = calls_to_make(config.deduplicate, calls, names);
    assert forall|i: int| 0 <= i < made.len() implies names.contains(
        (#[trigger] made[i]).name,
    ) by {
        let known = |c: ToolCallModel| names.contains(c.name);
        if config.deduplicate {
            kept_calls_were_there(valid, i);
            let k = choose|k: int| 0 <= k < valid.len() && valid[k] == made[i];
            assert(known(valid[k]));
        } else {
            assert(known(valid[i]));
        }
    }
}

/// A call that is left when repeats are left out was there.
proof fn kept_calls_were_there(calls: Seq<ToolCallModel>, i: int)
    requires
        0 <= i < guardrails::without_repeats(calls).len(),
    ensures
        exists|k: int|
            0 <= k < calls.len() && calls[k] == guardrails::without_repeats(calls)[i],
    decreases calls.len(),
{
    let rest = guardrails::without_repeats(calls.drop_last());
    if i < rest.len() {
        kept_calls_were_there(calls.drop_last(), i);
        let k = choose|k: int|
            0 <= k < calls.drop_last().len() && calls.drop_last()[k] == rest[i];
        assert(calls[k] == rest[i]);
    } else {
        assert(calls[calls.len() - 1] == guardrails::without_repeats(calls)[i]);
    }
}

/// Every call that was made is answered: behind the messages of a round stand the results
/// of its calls, in order, each with what the tool gave back, whether it failed or not.
/// Only the last one of a run that a guard ends goes on with the reason.
pub proof fn calls_are_answered_in_order(
    run: LoopModel,
    config: crate::config::GuardrailConfig,
    failures: Failures,
    results: Seq<CallResultModel>,
    rejected: Seq<(Seq<char>, Seq<char>)>,
    warning: Option<Seq<char>>,
    i: int,
)
    requires
        0 <= i < results.len(),
    ensures
        ({
            let (next, _, halted) = after_tools(run, config, failures, results, rejected, warning);
            let msgs = next.messages;
            let m = msgs[run.messages.len() + i];
            &&& msgs.len() >= run.messages.len() + results.len()
            &&& msgs.take(run.messages.len() as int) == run.messages
            &&& m.role == Role::Tool
            &&& m.tool_call_id == Some(results[i].tool_call_id)
            &&& m.tool_calls is None
            &&& halted is None || i + 1 < results.len() ==> m.content == Some(results[i].content)
            &&& halted is Some && i + 1 == results.len() ==> exists|reason: Seq<char>|
                {
                    &&& halted == Some("Execution halted by guardrail: "@ + reason)
                    &&& m.content == Some(
                        #[trigger] (results[i].content + "\n\n[GUARDRAIL HALT] "@ + reason),
                    )
                }
        }),
{
    let (next, _, halted) = after_tools(run, config, failures, results, rejected, warning);
    let (_, verdict) = guardrails::take_results(config, failures, outcomes_of(results), 0);
    let answered = run.messages + result_messages(contents(results));
    assert(answered[run.messages.len() + i].content == Some(results[i].content));
    assert(next.messages.take(run.messages.len() as int) =~= run.messages);
    if let VerdictModel::Halt(message) = verdict {
        assert(halted == Some("Execution halted by guardrail: "@ + message));
        if i + 1 == results.len() {
            assert(next.messages[run.messages.len() + i].content == Some(
                results[i].content + "\n\n[GUARDRAIL HALT] "@ + message,
            ));
        }
    }
}

/// A run that goes on after its tools has, behind their results, an answer for every call
/// that was refused, with the reason, then the warning where there is one, and nothing
/// else. Nothing but the messages has changed.
pub proof fn refusals_are_answered(
    run: LoopModel,
    config: crate::config::GuardrailConfig,
    failures: Failures,
    results: Seq<CallResultModel>,
    rejected: Seq<(Seq<char>, Seq<char>)>,
    warning: Option<Seq<char>>,
    j: int,
)
    requires
        0 <= j < rejected.len(),
    ensures
        ({
            let (next, _, halted) = after_tools(run, config, failures, results, rejected, warning);
            let m = next.messages[run.messages.len() + results.len() + j];
            &&& next == (LoopModel { messages: next.messages, ..run })
            &&& halted is None ==> {
                &&& next.messages.len() == run.messages.len() + results.len() + rejected.len()
                    + if warning is Some {
                    1int
                } else {
                    0
                }
                &&& m.role == Role::Tool
                &&& m.tool_call_id == Some(rejected[j].0)
                &&& m.content == Some(rejected[j].1)
                &&& m.tool_calls is None
            }
        }),
{
}

/// A run is ended after its tools only where one of them has failed in too long a series:
/// without a failure it goes on.
pub proof fn successes_end_no_run(
    run: LoopModel,
    config: crate::config::GuardrailConfig,
    failures: Failures,
    results: Seq<CallResultModel>,
    rejected: Seq<(Seq<char>, Seq<char>)>,
    warning: Option<Seq<char>>,
)
    requires
        forall|i: int| 0 <= i < results.len() ==> !(#[trigger] results[i]).is_error,
    ensures
        after_tools(run, config, failures, results, rejected, warning).2 is None,
{
    guardrails::successes_pass(config, failures, outcomes_of(results), 0);
}

/// Before tools are called, the calls stand in the conversation as the model has asked for
/// them, behind all that was said; they are counted, with those that were refused.
pub proof fn calls_are_noted(run: LoopModel, calls: Seq<ToolCallModel>, rejected: nat)
    ensures
        ({
            let next = calling(run, calls, rejected);
            &&& next.messages.len() == run.messages.len() + 1
            &&& next.messages.drop_last() == run.messages
            &&& next.messages.last().role == Role::Assistant
            &&& next.messages.last().tool_calls == Some(calls)
            &&& next.tool_calls_made == run.tool_calls_made + calls.len() + rejected
            &&& next.tool_names.len() == run.tool_names.len() + calls.len()
            &&& next.tool_names.take(run.tool_names.len() as int) == run.tool_names
            &&& forall|i: int|
                0 <= i < calls.len() ==> next.tool_names[run.tool_names.len() + i] == (
                #[trigger] calls[i]).name
            &&& next.iterations == run.iterations
            &&& next.thread_id == run.thread_id
        }),
{
    let next = calling(run, calls, rejected);
    assert(next.messages.drop_last() =~= run.messages);
    assert(next.tool_names.take(run.tool_names.len() as int) =~= run.tool_names);
}

/// An answer of the model without calls ends the run, with its text as the response; the
/// conversation goes on with it. A model that says nothing ends the run as well.
pub proof fn an_answer_without_calls_ends_the_run(
    run: LoopModel,
    config: crate::config::GuardrailConfig,
    log: CallLog,
    content: Option<Seq<char>>,
    names: Seq<Seq<char>>,
)
    ensures
        ({
            let (next, after, plan) = answer(run, config, log, content, Seq::empty(), names);
            &&& plan is Finish
            &&& content matches Some(c) ==> plan == PlanModel::Finish(c)
            &&& content is None ==> plan == PlanModel::Finish("(empty response)"@)
            &&& next.messages.len() == run.messages.len() + 1
            &&& next.messages.drop_last() == run.messages
            &&& next.messages.last().role == Role::Assistant
            &&& next.messages.last().content == Some(plan->Finish_0)
            &&& next.messages.last().tool_calls is None
            &&& next == (LoopModel { messages: next.messages, ..run })
            &&& after == log
        }),
{
    let (next, _, _) = answer(run, config, log, content, Seq::empty(), names);
    assert(next.messages.drop_last() =~= run.messages);
}

/// An answer with calls never ends the run as an answer: the calls are made, refused,
/// stopped by a guard or a human is asked. Unless a human is asked or a guard stops them,
/// tools are called exactly where one of the calls is of a tool that the agent has.
pub proof fn calls_are_never_the_response(
    run: LoopModel,
    config: crate::config::GuardrailConfig,
    log: CallLog,
    content: Option<Seq<char>>,
    calls: Seq<ToolCallModel>,
    names: Seq<Seq<char>>,
)
    requires
        calls.len() > 0,
    ensures
        ({
            let (next, _, plan) = answer(run, config, log, content, calls, names);
            &&& !(plan is Finish)
            &&& plan is Interrupt == exists|k: int|
                0 <= k < calls.len() && (#[trigger] calls[k]).name == "interrupt"@
            &&& plan is Execute ==> next == run
            &&& plan is Execute ==> exists|k: int|
                0 <= k < calls.len() && names.contains((#[trigger] calls[k]).name)
            &&& plan is Skip ==> forall|k: int|
                0 <= k < calls.len() ==> !names.contains((#[trigger] calls[k]).name)
            &&& !(plan is Execute) ==> {
                &&& next.messages.len() > run.messages.len()
                &&& next.messages[run.messages.len() as int].role == Role::Assistant
                &&& next.messages[run.messages.len() as int].tool_calls == Some(calls)
            }
        }),
{
    if exists|k: int| 0 <= k < calls.len() && (#[trigger] calls[k]).name == "interrupt"@ {
        let k = choose|k: int| 0 <= k < calls.len() && (#[trigger] calls[k]).name == "interrupt"@;
        named_call_is_found(calls, "interrupt"@, 0, k);
    } else {
        types::no_call_of_a_name_is_found(calls, "interrupt"@, 0);
        let made = calls_to_make(config.deduplicate, calls, names);
        only_known_tools_are_called(run, config, log, content, calls, names);
        if made.len() > 0 {
            made_calls_were_asked_for(config.deduplicate, calls, names, 0);
            let k = choose|k: int|
                0 <= k < calls.len() && #[trigger] calls[k] == made[0] && names.contains(
                    calls[k].name,
                );
            assert(names.contains(calls[k].name));
        } else {
            assert forall|k: int| 0 <= k < calls.len() implies !names.contains(
                (#[trigger] calls[k]).name,
            ) by {
                if names.contains(calls[k].name) {
                    known_calls_are_kept(config.deduplicate, calls, names, k);
                }
            }
        }
    }
}

/// A call that is to be made was asked for, and its tool is known.
proof fn made_calls_were_asked_for(
    deduplicate: bool,
    calls: Seq<ToolCallModel>,
    names: Seq<Seq<char>>,
    i: int,
)
    requires
        0 <= i < calls_to_make(deduplicate, calls, names).len(),
    ensures
        exists|k: int|
            0 <= k < calls.len() && #[trigger] calls[k] == calls_to_make(
                deduplicate,
                calls,
                names,
            )[i] && names.contains(calls[k].name),
{
    let known = |c: ToolCallModel| names.contains(c.name);
    let valid = calls.filter(known);
    let made = calls_to_make(deduplicate, calls, names);
    let v = if deduplicate {
        kept_calls_were_there(valid, i);
        choose|v: int| 0 <= v < valid.len() && valid[v] == made[i]
    } else {
        i
    };
    calls.lemma_filter_contains_rev(known, valid[v]);
    assert(known(valid[v]));
    let k = choose|k: int| 0 <= k < calls.len() && calls[k] == valid[v];
    assert(calls[k] == made[i]);
}

/// A call of a tool that is known is to be made, or one with the same name and arguments
/// is.
proof fn known_calls_are_kept(
    deduplicate: bool,
    calls: Seq<ToolCallModel>,
    names: Seq<Seq<char>>,
    k: int,
)
    requires
        0 <= k < calls.len(),
        names.contains(calls[k].name),
    ensures
        ({
            let made = calls_to_make(deduplicate, calls, names);
            exists|i: int|
                0 <= i < made.len() && ((#[trigger] made[i]) == calls[k] || deduplicate
                    && made[i].name == calls[k].name && equal::same_json(
                    made[i].arguments,
                    calls[k].arguments,
                ))
        }),
{
    let known = |c: ToolCallModel| names.contains(c.name);
    let valid = calls.filter(known);
    let made = calls_to_make(deduplicate, calls, names);
    assert(known(calls[k]));
    assert(valid.contains(calls[k]));
    let v = choose|v: int| 0 <= v < valid.len() && valid[v] == calls[k];
    if deduplicate {
        guardrails::repeats_are_made_once(valid);
        if made.contains(valid[v]) {
            let i = choose|i: int| 0 <= i < made.len() && made[i] == valid[v];
            assert(made[i] == calls[k]);
        } else {
            let i = choose|i: int|
                0 <= i < made.len() && guardrails::same_call(#[trigger] made[i], valid[v]);
            assert(made[i].name == calls[k].name);
        }
    } else {
        assert(made[v] == calls[k]);
    }
}

/// When tools are called, every call of a tool that the agent has is made, or one with the
/// same name and arguments where repeats are left out; every other call is refused, with
/// an answer for it that names the tool. No call is made that the model has not asked for.
pub proof fn every_call_is_made_or_refused(
    run: LoopModel,
    config: crate::config::GuardrailConfig,
    log: CallLog,
    content: Option<Seq<char>>,
    calls: Seq<ToolCallModel>,
    names: Seq<Seq<char>>,
)
    ensures
        answer(run, config, log, content, calls, names).2 matches PlanModel::Execute {
            calls: made,
            rejected,
            warning,
        } ==> {
            &&& forall|i: int| 0 <= i < made.len() ==> calls.contains(#[trigger] made[i])
            &&& forall|k: int|
                0 <= k < calls.len() && names.contains((#[trigger] calls[k]).name) ==> exists|
                    i: int,
                |
                    0 <= i < made.len() && ((#[trigger] made[i]) == calls[k]
                        || config.deduplicate && made[i].name == calls[k].name
                        && equal::same_json(made[i].arguments, calls[k].arguments))
            &&& forall|k: int|
                0 <= k < calls.len() && !names.contains((#[trigger] calls[k]).name) ==> exists|
                    j: int,
                |
                    0 <= j < rejected.len() && (#[trigger] rejected[j]).0 == calls[k].id
                        && text::contains(rejected[j].1, calls[k].name)
            &&& forall|j: int|
                0 <= j < rejected.len() ==> exists|k: int|
                    0 <= k < calls.len() && (#[trigger] calls[k]).id == (
                    #[trigger] rejected[j]).0 && !names.contains(calls[k].name)
        },
{
    if let PlanModel::Execute { calls: made, rejected, warning } = answer(
        run,
        config,
        log,
        content,
        calls,
        names,
    ).2 {
        assert forall|i: int| 0 <= i < made.len() implies calls.contains(#[trigger] made[i]) by {
            made_calls_were_asked_for(config.deduplicate, calls, names, i);
        }
        assert forall|k: int|
            0 <= k < calls.len() && names.contains((#[trigger] calls[k]).name) implies exists|
            i: int,
        |
            0 <= i < made.len() && ((#[trigger] made[i]) == calls[k] || config.deduplicate
                && made[i].name == calls[k].name && equal::same_json(
                made[i].arguments,
                calls[k].arguments,
            )) by {
            known_calls_are_kept(config.deduplicate, calls, names, k);
        }
        assert forall|k: int|
            0 <= k < calls.len() && !names.contains((#[trigger] calls[k]).name) implies exists|
            j: int,
        |
            0 <= j < rejected.len() && (#[trigger] rejected[j]).0 == calls[k].id
                && text::contains(rejected[j].1, calls[k].name) by {
            guardrails::an_unknown_tool_is_refused(calls, names, k);
        }
        assert forall|j: int| 0 <= j < rejected.len() implies exists|k: int|
            0 <= k < calls.len() && (#[trigger] calls[k]).id == (#[trigger] rejected[j]).0
                && !names.contains(calls[k].name) by {
            guardrails::only_unknown_tools_are_refused(calls, names, j);
        }
    }
}

/// What a human is shown is what the first call that asks one gives to be shown.
pub proof fn a_human_is_shown_what_is_given(
    run: LoopModel,
    config: crate::config::GuardrailConfig,
    log: CallLog,
    content: Option<Seq<char>>,
    calls: Seq<ToolCallModel>,
    names: Seq<Seq<char>>,
    k: int,
)
    requires
        0 <= k < calls.len(),
        calls[k].name == "interrupt"@,
        forall|j: int| 0 <= j < k ==> (#[trigger] calls[j]).name != "interrupt"@,
    ensures
        ({
            let (next, _, plan) = answer(run, config, log, content, calls, names);
            &&& calls[k].arguments.get("value"@) matches Some(v) ==> plan == PlanModel::Interrupt(v)
            &&& calls[k].arguments.get("value"@) is None ==> plan == PlanModel::Interrupt(
                JsonModel::Object(Seq::empty()),
            )
            &&& next.messages.len() == run.messages.len() + 1
            &&& next.tool_calls_made == run.tool_calls_made + calls.len()
            &&& next.tool_names == run.tool_names
        }),
{
    types::the_first_call_of_a_name_is_found(calls, "interrupt"@, 0, k);
}

/// Calls that a guard stops are answered with its reason, each of those that were to be
/// made; the run ends with the reason.
pub proof fn a_stop_is_told(
    run: LoopModel,
    config: crate::config::GuardrailConfig,
    log: CallLog,
    content: Option<Seq<char>>,
    calls: Seq<ToolCallModel>,
    names: Seq<Seq<char>>,
)
    ensures
        ({
            let (next, _, plan) = answer(run, config, log, content, calls, names);
            plan matches PlanModel::Halt(response) ==> exists|reason: Seq<char>|
                {
                    &&& response == #[trigger] ("Execution halted by guardrail: "@ + reason)
                    &&& next.messages.len() > run.messages.len() + 1
                    &&& forall|i: int|
                        run.messages.len() < i < next.messages.len() ==> {
                            &&& (#[trigger] next.messages[i]).role == Role::Tool
                            &&& next.messages[i].content == Some(reason)
                        }
                    &&& forall|k: int|
                        0 <= k < calls.len() && names.contains((#[trigger] calls[k]).name)
                            && !config.deduplicate ==> exists|i: int|
                            run.messages.len() < i < next.messages.len() && (
                            #[trigger] next.messages[i]).tool_call_id == Some(calls[k].id)
                }
        }),
{
    let (next, _, plan) = answer(run, config, log, content, calls, names);
    if let PlanModel::Halt(response) = plan {
        let made = calls_to_make(config.deduplicate, calls, names);
        let (_, verdict) = guardrails::check_calls(config, log, made, 0);
        let reason = verdict->Halt_0;
        assert(response == "Execution halted by guardrail: "@ + reason);
        assert(made.len() > 0);
        let told = result_messages(same_result(made, reason));
        assert(next.messages =~= run.messages.push(llm::calling_message(calls)) + told);
        assert forall|k: int|
            0 <= k < calls.len() && names.contains((#[trigger] calls[k]).name)
                && !config.deduplicate implies exists|i: int|
            run.messages.len() < i < next.messages.len() && (
            #[trigger] next.messages[i]).tool_call_id == Some(calls[k].id) by {
            known_calls_are_kept(config.deduplicate, calls, names, k);
            let j = choose|j: int| 0 <= j < made.len() && (#[trigger] made[j]) == calls[k];
            assert(next.messages[run.messages.len() + 1 + j] == told[j]);
        }
    }
}

/// Calls of tools that the agent does not have are answered, each with a text that names
/// the tool and the tools that there are; the model is asked again.
pub proof fn unknown_tools_are_told(
    run: LoopModel,
    config: crate::config::GuardrailConfig,
    log: CallLog,
    content: Option<Seq<char>>,
    calls: Seq<ToolCallModel>,
    names: Seq<Seq<char>>,
    k: int,
)
    requires
        0 <= k < calls.len(),
    ensures
        ({
            let (next, _, plan) = answer(run, config, log, content, calls, names);
            plan is Skip ==> exists|i: int|
                {
                    &&& run.messages.len() < i < next.messages.len()
                    &&& (#[trigger] next.messages[i]).role == Role::Tool
                    &&& next.messages[i].tool_call_id == Some(calls[k].id)
                    &&& text::contains(next.messages[i].text(), calls[k].name)
                    &&& forall|n: int|
                        0 <= n < names.len() ==> text::contains(
                            next.messages[i].text(),
                            #[trigger] names[n],
                        )
                }
        }),
{
    let (next, _, plan) = answer(run, config, log, content, calls, names);
    if plan is Skip {
        calls_are_never_the_response(run, config, log, content, calls, names);
        guardrails::an_unknown_tool_is_refused(calls, names, k);
        let rejected = guardrails::rejections(calls, names);
        let j = choose|j: int|
            {
                &&& 0 <= j < rejected.len()
                &&& (#[trigger] rejected[j]).0 == calls[k].id
                &&& text::contains(rejected[j].1, calls[k].name)
                &&& forall|n: int|
                    0 <= n < names.len() ==> text::contains(rejected[j].1, #[trigger] names[n])
            };
        let told = result_messages(rejected);
        assert(next.messages =~= run.messages.push(llm::calling_message(calls)) + told);
        assert(next.messages[run.messages.len() + 1 + j] == told[j]);
    }
}

/// A human who is shown a run that has had too many rounds is told how many it had and may
/// have, and can choose between going on and summing up.
pub proof fn too_many_rounds_are_told(run: LoopModel, max_iterations: int)
    ensures
        ({
            let shown = too_many_rounds(run, max_iterations);
            &&& shown.get("type"@) == Some(JsonModel::Str("max_iterations"@))
            &&& shown.get("iterations"@) == Some(JsonModel::Int(run.iterations))
            &&& shown.get("max_iterations"@) == Some(JsonModel::Int(max_iterations))
            &&& shown.get("tool_calls_made"@) == Some(JsonModel::Int(run.tool_calls_made))
            &&& shown.get("options"@) matches Some(JsonModel::Array(options)) && options.len() == 2
                && options[0].at("value"@).get("action"@) == Some(JsonModel::Str("continue"@))
                && options[1].at("value"@).get("action"@) == Some(JsonModel::Str("summarize"@))
        }),
{
    let shown = too_many_rounds(run, max_iterations)->Object_0;
    reveal_strlit("type");
    reveal_strlit("message");
    reveal_strlit("iterations");
    reveal_strlit("max_iterations");
    reveal_strlit("tool_calls_made");
    reveal_strlit("options");
    reveal_strlit("label");
    reveal_strlit("value");
    assert("type"@[0] == 't' && "message"@[1] == 'e' && "iterations"@[0] == 'i');
    assert("max_iterations"@[1] == 'a' && "tool_calls_made"@[1] == 'o' && "options"@[0] == 'o');
    assert("type"@[1] == 'y');
    json::a_field_is_found(shown, 0);
    json::a_field_is_found(shown, 2);
    json::a_field_is_found(shown, 3);
    json::a_field_is_found(shown, 4);
    json::a_field_is_found(shown, 5);
    a_choice_is_read_back("继续执行"@, "continue"@);
    a_choice_is_read_back("停止并总结"@, "summarize"@);
}

/// The action of a choice that a human is shown.
proof fn a_choice_is_read_back(label: Seq<char>, action: Seq<char>)
    ensures
        option_json(label, action).at("value"@).get("action"@) == Some(JsonModel::Str(action)),
{
    let o = option_json(label, action)->Object_0;
    reveal_strlit("label");
    reveal_strlit("value");
    assert("label"@[0] == 'l' && "value"@[0] == 'v');
    json::a_field_is_found(o, 1);
    json::a_field_is_found(o[1].1->Object_0, 0);
}

/// A warning of a guard reaches the model: it is the last message of the round, unless the
/// run ends.
pub proof fn a_warning_reaches_the_model(
    run: LoopModel,
    config: crate::config::GuardrailConfig,
    failures: Failures,
    results: Seq<CallResultModel>,
    rejected: Seq<(Seq<char>, Seq<char>)>,
    warning: Seq<char>,
)
    ensures
        ({
            let (next, _, halted) = after_tools(
                run,
                config,
                failures,
                results,
                rejected,
                Some(warning),
            );
            halted is None ==> next.messages.len() > 0 && next.messages.last()
                == llm::plain_message(Role::System, warning)
        }),
{
}

/// A run after so many rounds.
pub open spec fn after_rounds(run: LoopModel, n: nat) -> LoopModel
    decreases n,
{
    if n == 0 {
        run
    } else {
        begun(after_rounds(run, (n - 1) as nat))
    }
}

/// A run takes no more rounds than it may: of the rounds that follow one another, those
/// up to the limit begin, and the next one ends the run.
pub proof fn rounds_are_bounded(run: LoopModel, n: nat, max_iterations: int)
    ensures
        after_rounds(run, n).iterations == run.iterations + n,
        is_last_round_over(after_rounds(run, n), max_iterations) == (run.iterations + n
            >= max_iterations),
    decreases n,
{
    if n > 0 {
        rounds_are_bounded(run, (n - 1) as nat, max_iterations);
    }
}

/// A run is stored after every so many rounds, no matter how many there have been, and never
/// where it is not to be stored.
pub proof fn a_run_is_stored_at_intervals(k: int, interval: int, more: int)
    requires
        interval > 0,
        0 < more < interval,
    ensures
        is_checkpoint_due(k * interval, interval),
        !is_checkpoint_due(k * interval + more, interval),
        !is_checkpoint_due(k, 0),
{
    vstd::arithmetic::div_mod::lemma_mod_multiples_basic(k, interval);
    vstd::arithmetic::div_mod::lemma_mod_multiples_vanish(k, more, interval);
    vstd::arithmetic::div_mod::lemma_small_mod(more as nat, interval as nat);
    assert(k * interval + more == interval * k + more) by (nonlinear_arith);
}

} // verus!

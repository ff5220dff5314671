//! One task of a sub-agent: what it is launched with, what comes of it, and whether it
//! is asked again.
use vstd::prelude::*;

use crate::agent::AgentOutput;
use crate::delegation::schema;
use crate::delegation::schema::{
    append_output_contract, build_retry_message, validate_output, SchemaModel,
    MAX_SCHEMA_RETRIES,
};
use crate::delegation::spawn_args::{SpawnTask, SpawnTaskModel};
use crate::errors::LoomError;
use crate::ids;
use crate::ids::id_to_text;
use crate::isolation::{AgentLaunchRequest, IsolationLevel, RequestModel};
use crate::json;
use crate::json::{clone_fields, set_field, Json, JsonModel};
use crate::llm::{clone_opt, clone_texts};
use crate::result;
use crate::result::{ErrorClassification, SubagentModel, SubagentResult, TraceModel};
use crate::scope::{clone_scope, MemoryScope, ScopeModel};
use crate::text;
use crate::text::{join_text, trim_end_text};

verus! {

broadcast use crate::seqs::group_views;

/// What a sub-agent is to do, and on whose behalf.
#[derive(Debug, PartialEq, Eq)]
pub struct SubagentJob {
    pub goal: String,
    pub context: String,
    pub toolsets: Vec<String>,
    /// The tool sets of the parent, which bound those of the child.
    pub parent_toolsets: Vec<String>,
    pub isolation: IsolationLevel,
    pub parent_agent_id: u128,
    pub child_depth: u32,
    pub output_schema: Option<Vec<(String, Json)>>,
    pub scope: Option<MemoryScope>,
    pub session_id: Option<String>,
}

/// What a sub-agent is to do, and on whose behalf.
#[verifier::ext_equal]
pub struct JobModel {
    pub goal: Seq<char>,
    pub context: Seq<char>,
    pub toolsets: Seq<Seq<char>>,
    pub parent_toolsets: Seq<Seq<char>>,
    pub isolation: IsolationLevel,
    pub parent_agent_id: u128,
    pub child_depth: u32,
    pub output_schema: Option<SchemaModel>,
    pub scope: Option<ScopeModel>,
    pub session_id: Option<Seq<char>>,
}

impl View for SubagentJob {
    type V = JobModel;

    open spec fn view(&self) -> JobModel {
        JobModel {
            goal: self.goal@,
            context: self.context@,
            toolsets: self.toolsets.deep_view(),
            parent_toolsets: self.parent_toolsets.deep_view(),
            isolation: self.isolation,
            parent_agent_id: self.parent_agent_id,
            child_depth: self.child_depth,
            output_schema: schema::opt_schema(self.output_schema),
            scope: self.scope.deep_view(),
            session_id: self.session_id.deep_view(),
        }
    }
}

/// The context that a task begins with: where the answer is to have a form, that is said
/// at its end.
pub open spec fn first_context(task: SpawnTaskModel) -> Seq<char> {
    match task.output_schema {
        Some(s) => schema::with_contract(task.context, s),
        None => task.context,
    }
}

/// What a sub-agent is launched with for a job.
pub open spec fn job_request(job: JobModel) -> RequestModel {
    RequestModel {
        capability_id: None,
        goal: job.goal,
        context: job.context,
        toolsets: job.toolsets,
        isolation: job.isolation,
        timeout_ms: None,
        parent_agent_id: Some(job.parent_agent_id),
        config: JsonModel::Null,
        delegate_depth: job.child_depth,
        scope: job.scope,
        parent_toolsets: job.parent_toolsets,
        session_id: job.session_id,
    }
}

/// A copy of an optional schema.
pub fn clone_schema(s: &Option<Vec<(String, Json)>>) -> (r: Option<Vec<(String, Json)>>)
    ensures
        schema::opt_schema(r) == schema::opt_schema(*s),
{
    match s {
        Some(o) => Some(clone_fields(o.as_slice())),
        None => None,
    }
}

impl SubagentJob {
    /// The job of a task.
    pub fn from_task(
        task: &SpawnTask,
        toolsets: &[String],
        parent_toolsets: &[String],
        isolation: IsolationLevel,
        parent_agent_id: u128,
        child_depth: u32,
        scope: &Option<MemoryScope>,
        session_id: &Option<String>,
    ) -> (r: Self)
        ensures
            r@ == (JobModel {
                goal: task.goal@,
                context: first_context(task@),
                toolsets: toolsets.deep_view(),
                parent_toolsets: parent_toolsets.deep_view(),
                isolation,
                parent_agent_id,
                child_depth,
                output_schema: task@.output_schema,
                scope: scope.deep_view(),
                session_id: session_id.deep_view(),
            }),
    {
        let context = match &task.output_schema {
            Some(s) => append_output_contract(task.context.as_str(), s.as_slice()),
            None => task.context.clone(),
        };
        SubagentJob {
            goal: task.goal.clone(),
            context,
            toolsets: clone_texts(toolsets),
            parent_toolsets: clone_texts(parent_toolsets),
            isolation,
            parent_agent_id,
            child_depth,
            output_schema: clone_schema(&task.output_schema),
            scope: clone_scope(scope),
            session_id: clone_opt(session_id),
        }
    }

    /// What the sub-agent is launched with.
    pub fn request(&self) -> (r: AgentLaunchRequest)
        ensures
            r@ == job_request(self@),
    {
        AgentLaunchRequest {
            capability_id: None,
            goal: self.goal.clone(),
            context: self.context.clone(),
            toolsets: clone_texts(self.toolsets.as_slice()),
            isolation: self.isolation,
            timeout_ms: None,
            parent_agent_id: Some(self.parent_agent_id),
            config: Json::Null,
            delegate_depth: self.child_depth,
            scope: clone_scope(&self.scope),
            parent_toolsets: clone_texts(self.parent_toolsets.as_slice()),
            session_id: clone_opt(&self.session_id),
        }
    }
}

// ---------- what comes of a sub-agent ----------

/// The trace of an output; empty where it has none.
pub open spec fn output_trace(o: AgentOutput) -> Seq<TraceModel> {
    match o.tool_trace {
        Some(t) => t@,
        None => Seq::empty(),
    }
}

/// The result of an output that is taken as it is.
pub open spec fn answered(o: AgentOutput) -> SubagentModel {
    result::succeeded(
        o.summary@,
        o.iterations,
        o.tool_calls_made,
        o.tool_names.deep_view(),
        o.duration_ms,
        output_trace(o),
    )
}

/// The result of an output: its answer where the agent completed, its error where it did
/// not, and the given one where it does not say why.
pub open spec fn ended(o: AgentOutput, unexplained: Seq<char>) -> SubagentModel {
    if o.success {
        answered(o)
    } else {
        result::failed(
            match o.error_message {
                Some(e) => e@,
                None => unexplained,
            },
            o.iterations,
            o.tool_calls_made,
        )
    }
}

/// The result of an output.
fn ended_result(o: AgentOutput, unexplained: String) -> (r: SubagentResult)
    ensures
        r@ == ended(o, unexplained@),
{
    if o.success {
        SubagentResult::from_success_with_meta(
            o.summary,
            o.iterations,
            o.tool_calls_made,
            o.tool_names.as_slice(),
            o.duration_ms,
            o.tool_trace,
        )
    } else {
        let message = match o.error_message {
            Some(e) => e,
            None => unexplained,
        };
        SubagentResult::from_error(message.as_str(), o.iterations, o.tool_calls_made)
    }
}

/// The result that a parent has waited for: that of the output where there is one, an
/// error where there is none.
pub open spec fn awaited(outcome: Result<AgentOutput, LoomError>) -> SubagentModel {
    match outcome {
        Ok(o) => ended(o, "sub-agent failed"@),
        Err(e) => result::failed(e.text(), 0, 0),
    }
}

/// The result that a parent has waited for.
pub fn awaited_result(outcome: Result<AgentOutput, LoomError>) -> (r: SubagentResult)
    ensures
        r@ == awaited(outcome),
{
    match outcome {
        Ok(o) => ended_result(o, String::from_str("sub-agent failed")),
        Err(e) => SubagentResult::from_error(e.to_text().as_str(), 0, 0),
    }
}

/// The error of an output that failed without saying why.
pub open spec fn unexplained(agent_id: u128) -> Seq<char> {
    "background agent "@ + ids::id_text(agent_id) + " failed"@
}

/// The result of a sub-agent in the background: that of the output where there is one, an
/// error where there is none.
pub open spec fn background_outcome(
    agent_id: u128,
    outcome: Result<AgentOutput, LoomError>,
) -> SubagentModel {
    match outcome {
        Ok(o) => ended(o, unexplained(agent_id)),
        Err(e) => result::failed(e.text(), 0, 0),
    }
}

/// The result of a sub-agent in the background.
pub fn background_result(agent_id: u128, outcome: Result<AgentOutput, LoomError>) -> (r:
    SubagentResult)
    ensures
        r@ == background_outcome(agent_id, outcome),
{
    match outcome {
        Ok(o) => {
            let mut s = String::from_str("background agent ");
            s.append(id_to_text(agent_id).as_str());
            s.append(" failed");
            ended_result(o, s)
        },
        Err(e) => SubagentResult::from_error(e.to_text().as_str(), 0, 0),
    }
}

/// The error of a sub-agent whose parent was cancelled.
pub open spec fn cancelled_text(agent_id: u128) -> Seq<char> {
    "sub-agent "@ + ids::id_text(agent_id) + " cancelled by parent"@
}

/// The result of a sub-agent whose parent was cancelled.
pub open spec fn cancelled(agent_id: u128) -> SubagentModel {
    result::failed_with(cancelled_text(agent_id), ErrorClassification::Cancelled, 0, 0)
}

/// The result of a sub-agent whose parent was cancelled.
pub fn cancelled_result(agent_id: u128) -> (r: SubagentResult)
    ensures
        r@ == cancelled(agent_id),
{
    let mut s = String::from_str("sub-agent ");
    s.append(id_to_text(agent_id).as_str());
    s.append(" cancelled by parent");
    let mut r = SubagentResult::from_error(s.as_str(), 0, 0);
    r.error_classification = ErrorClassification::Cancelled;
    r
}

// ---------- asking again ----------

/// What follows an attempt.
#[derive(Debug, PartialEq, Eq)]
pub enum Attempt {
    /// The result stands.
    Done(SubagentResult),
    /// The job is tried again.
    Again(SubagentJob),
}

/// What follows an attempt.
pub enum AttemptModel {
    Done(SubagentModel),
    Again(JobModel),
}

impl View for Attempt {
    type V = AttemptModel;

    open spec fn view(&self) -> AttemptModel {
        match self {
            Attempt::Done(r) => AttemptModel::Done(r@),
            Attempt::Again(j) => AttemptModel::Again(j@),
        }
    }
}

/// The job with what was wrong with the answer at the end of its context.
pub open spec fn asked_again(job: JobModel, errors: Seq<Seq<char>>) -> JobModel {
    JobModel {
        context: text::trim_end(job.context) + "\n\n"@ + schema::retry_message(errors),
        ..job
    }
}

/// The result of an answer that did not have its form in the end.
pub open spec fn of_wrong_form(r: SubagentModel, errors: Seq<Seq<char>>) -> SubagentModel {
    SubagentModel {
        success: false,
        error_classification: ErrorClassification::DelegationError,
        error_message: Some(
            "output did not match schema after "@ + text::decimal(MAX_SCHEMA_RETRIES as nat)
                + " retries: "@ + text::join(errors, "; "@),
        ),
        ..r
    }
}

/// What follows an attempt: a result stands where the parent was cancelled, where the
/// answer may have any form, and where it has its form. Else the job is tried again as
/// long as it may be, and fails at the end.
pub open spec fn following(job: JobModel, attempt: int, r: SubagentModel) -> AttemptModel {
    if !r.success && r.error_classification == ErrorClassification::Cancelled {
        AttemptModel::Done(r)
    } else {
        match job.output_schema {
            None => AttemptModel::Done(r),
            Some(s) => {
                let errors = schema::answer_errors(r.summary, s);
                if errors.len() == 0 {
                    AttemptModel::Done(r)
                } else if attempt < MAX_SCHEMA_RETRIES {
                    AttemptModel::Again(asked_again(job, errors))
                } else {
                    AttemptModel::Done(of_wrong_form(r, errors))
                }
            },
        }
    }
}

/// What follows an attempt at a job; the first attempt is number zero.
pub fn after_attempt(job: SubagentJob, attempt: usize, result: SubagentResult) -> (r: Attempt)
    ensures
        r@ == following(job@, attempt as int, result@),
{
    if !result.success && result.error_classification == ErrorClassification::Cancelled {
        return Attempt::Done(result);
    }
    let (valid, errors) = match &job.output_schema {
        None => {
            return Attempt::Done(result);
        },
        Some(s) => validate_output(result.summary.as_str(), s.as_slice()),
    };
    if valid {
        return Attempt::Done(result);
    }
    if attempt < MAX_SCHEMA_RETRIES {
        let mut context = trim_end_text(job.context.as_str());
        context.append("\n\n");
        context.append(build_retry_message(errors.as_slice()).as_str());
        let mut again = job;
        again.context = context;
        return Attempt::Again(again);
    }
    let mut message = String::from_str("output did not match schema after ");
    message.append(text::decimal_text(MAX_SCHEMA_RETRIES as u64).as_str());
    message.append(" retries: ");
    message.append(join_text(errors.as_slice(), "; ").as_str());
    let mut failed = result;
    failed.success = false;
    failed.error_classification = ErrorClassification::DelegationError;
    failed.error_message = Some(message);
    Attempt::Done(failed)
}

/// A job is tried once more at most, whatever comes of it.
pub proof fn a_job_is_tried_twice_at_most(job: JobModel, attempt: int, r: SubagentModel)
    requires
        attempt >= 1,
    ensures
        following(job, attempt, r) is Done,
{
}

/// A success of a job whose answer is to have a form has that form.
pub proof fn a_success_has_the_form(
    job: JobModel,
    attempt: int,
    r: SubagentModel,
    form: SchemaModel,
)
    requires
        job.output_schema == Some(form),
    ensures
        following(job, attempt, r) matches AttemptModel::Done(end) ==> end.success
            ==> schema::answer_errors(end.summary, form).len() == 0,
{
}

/// Nothing is tried again once the parent is cancelled.
pub proof fn cancelling_ends_the_attempts(job: JobModel, attempt: int, agent_id: u128)
    ensures
        following(job, attempt, cancelled(agent_id)) == AttemptModel::Done(cancelled(agent_id)),
{
}

// ---------- what the parent is told ----------

/// The result of one task as the parent reads it: within its budget, and with its goal.
pub open spec fn reported(r: SubagentModel, max_chars: int, goal: Seq<char>) -> JsonModel {
    JsonModel::Object(
        json::with_field(
            result::result_fields(result::within_budget(r, max_chars)),
            "goal"@,
            JsonModel::Str(goal),
        ),
    )
}

/// The result of one task as the parent reads it.
pub fn report(result: SubagentResult, max_chars: usize, goal: &str) -> (r: Json)
    ensures
        r@ == reported(result@, max_chars as int, goal@),
{
    let mut o = result.with_summary_budget(max_chars).to_fields();
    set_field(&mut o, "goal", Json::string(goal));
    Json::object(o)
}

/// The results of tasks that were waited for.
pub open spec fn sync_report(results: Seq<JsonModel>) -> JsonModel {
    JsonModel::Object(
        seq![
            ("results"@, JsonModel::Array(results)),
            ("mode"@, JsonModel::Str("sync"@)),
        ],
    )
}

/// The note of tasks that were to run in the background and had no session to report to.
pub const FALLBACK_NOTE: &'static str =
    "background execution fell back to sync: no session_id to receive async results";

/// The results of tasks that were waited for although they were to run in the
/// background.
pub open spec fn fallback_report(results: Seq<JsonModel>) -> JsonModel {
    JsonModel::Object(
        sync_report(results)->Object_0.push(("fallback_note"@, JsonModel::Str(FALLBACK_NOTE@))),
    )
}

/// The results of tasks that were waited for; `fell_back` says that they were to run in
/// the background.
pub fn report_all(results: Vec<Json>, fell_back: bool) -> (r: Json)
    ensures
        r@ == if fell_back {
            fallback_report(json::items_model(results@))
        } else {
            sync_report(json::items_model(results@))
        },
{
    broadcast use crate::json::fields_model_push;

    let ghost items = json::items_model(results@);
    let mut o: Vec<(String, Json)> = Vec::new();
    json::add_field(&mut o, "results", Json::array(results));
    json::add_field(&mut o, "mode", Json::string("sync"));
    assert(json::fields_model(o@) =~= sync_report(items)->Object_0);
    if fell_back {
        json::add_field(&mut o, "fallback_note", Json::string(FALLBACK_NOTE));
    }
    Json::object(o)
}

/// A sub-agent acts for whom its parent acts for, in the conversation of its parent and
/// within the tool sets of its parent, and runs at the level that was asked for.
pub proof fn a_child_takes_after_its_parent(job: JobModel)
    ensures
        ({
            let req = job_request(job);
            &&& req.parent_agent_id == Some(job.parent_agent_id)
            &&& req.scope == job.scope
            &&& req.session_id == job.session_id
            &&& req.parent_toolsets == job.parent_toolsets
            &&& req.delegate_depth == job.child_depth
            &&& crate::isolation::launch_level(req.isolation, req.config) == job.isolation
        }),
{
}

/// A sub-agent is asked for the goal of its task, with the context of the task, to which the
/// form of the answer is added where one is asked for; it has the tool sets of the job.
pub proof fn a_job_asks_for_its_task(task: SpawnTaskModel, job: JobModel)
    ensures
        task.output_schema is None ==> first_context(task) == task.context,
        task.output_schema matches Some(s) ==> text::contains(
            first_context(task),
            text::trim_end(task.context),
        ) && text::ends_with(first_context(task), schema::schema_text(s)),
        job_request(job).goal == job.goal,
        job_request(job).context == job.context,
        job_request(job).toolsets == job.toolsets,
        job_request(job).isolation == job.isolation,
{
    if let Some(s) = task.output_schema {
        schema::the_form_is_told(task.context, s);
    }
}

/// What comes of a sub-agent is its answer where it succeeded, with all that it reports of
/// its work; where it did not, the error that it gives, or that it gave none; and where it
/// could not be run, the reason.
pub proof fn what_comes_of_a_sub_agent(
    o: AgentOutput,
    e: LoomError,
    agent_id: u128,
    unexplained_text: Seq<char>,
)
    ensures
        ({
            let r = ended(o, unexplained_text);
            &&& r.success == o.success
            &&& o.success ==> {
                &&& r.summary == o.summary@
                &&& r.usage.iterations == o.iterations
                &&& r.usage.tool_calls == o.tool_calls_made
                &&& r.duration_ms == o.duration_ms
                &&& r.tool_summary == result::tally(o.tool_names.deep_view())
                &&& o.tool_trace matches Some(t) ==> r.tool_trace == t@
                &&& r.error_message is None
            }
            &&& !o.success ==> (o.error_message matches Some(m) ==> r.error_message == Some(m@))
            &&& !o.success && o.error_message is None ==> r.error_message == Some(unexplained_text)
            &&& awaited(Ok(o)).success == o.success
            &&& awaited(Ok(o)).summary == r.summary
            &&& background_outcome(agent_id, Ok(o)).success == o.success
            &&& background_outcome(agent_id, Ok(o)).summary == r.summary
            &&& !awaited(Err(e)).success
            &&& awaited(Err(e)).error_message == Some(e.text())
            &&& awaited(Err(e)).usage.iterations == 0
            &&& awaited(Err(e)).usage.tool_calls == 0
            &&& background_outcome(agent_id, Err(e)).usage.iterations == 0
            &&& background_outcome(agent_id, Err(e)).usage.tool_calls == 0
            &&& cancelled(agent_id).usage.iterations == 0
            &&& cancelled(agent_id).usage.tool_calls == 0
            &&& !o.success ==> r.usage.iterations == o.iterations && r.usage.tool_calls
                == o.tool_calls_made
            &&& !background_outcome(agent_id, Err(e)).success
            &&& background_outcome(agent_id, Err(e)).error_message == Some(e.text())
            &&& !cancelled(agent_id).success
            &&& cancelled(agent_id).error_classification == ErrorClassification::Cancelled
            &&& cancelled(agent_id).error_message matches Some(m) && text::contains(
                m,
                ids::id_text(agent_id),
            )
        }),
{
    broadcast use text::group_parts;

    let m = cancelled_text(agent_id);
    assert(text::contains(m, ids::id_text(agent_id)));
}

/// An answer that has the form, or of which none was asked, is taken as it is. One that has
/// not is asked for once more: the same sub-task, told everything that was wrong; after that
/// it is a failure that says so, with what was answered.
pub proof fn an_answer_of_the_wrong_form_is_asked_for_again(
    job: JobModel,
    attempt: int,
    r: SubagentModel,
    i: int,
)
    ensures
        job.output_schema is None ==> following(job, attempt, r) == AttemptModel::Done(r),
        job.output_schema matches Some(form) ==> {
            let errors = schema::answer_errors(r.summary, form);
            let cancelled = !r.success && r.error_classification == ErrorClassification::Cancelled;
            &&& errors.len() == 0 ==> following(job, attempt, r) == AttemptModel::Done(r)
            &&& errors.len() > 0 && !cancelled && attempt < 1 ==> {
                &&& following(job, attempt, r) matches AttemptModel::Again(again)
                &&& again == (JobModel { context: again.context, ..job })
                &&& text::starts_with(again.context, text::trim_end(job.context))
                &&& 0 <= i < errors.len() ==> text::contains(again.context, errors[i])
            }
            &&& errors.len() > 0 && !cancelled && attempt >= 1 ==> {
                &&& following(job, attempt, r) matches AttemptModel::Done(end)
                &&& !end.success
                &&& end.summary == r.summary
                &&& end.error_message matches Some(m) && (0 <= i < errors.len() ==> text::contains(
                    m,
                    errors[i],
                ))
            }
        },
{
    broadcast use text::group_parts;

    if let Some(form) = job.output_schema {
        let errors = schema::answer_errors(r.summary, form);
        let again = asked_again(job, errors);
        let base = text::trim_end(job.context);
        assert(again.context.subrange(0, base.len() as int) =~= base);
        if 0 <= i < errors.len() {
            schema::what_is_wrong_is_told(errors, i);
            assert(text::contains(again.context, errors[i]));
            text::parts_stand_in_a_join(errors, "; "@, i);
            assert(text::contains(of_wrong_form(r, errors).error_message->0, errors[i]));
        }
    }
}

/// What is reported of a sub-agent is its result, cut to what may be said, with the goal that
/// it was about; all results of a call are reported together, in order.
pub proof fn results_are_reported(
    r: SubagentModel,
    max_chars: int,
    goal: Seq<char>,
    results: Seq<JsonModel>,
)
    ensures
        ({
            let cut = result::within_budget(r, max_chars);
            let told = reported(r, max_chars, goal);
            &&& told.get("goal"@) == Some(JsonModel::Str(goal))
            &&& told.get("summary"@) == Some(JsonModel::Str(cut.summary))
            &&& told.get("success"@) == Some(JsonModel::Bool(r.success))
            &&& r.error_message matches Some(e) ==> told.get("error_message"@) == Some(
                JsonModel::Str(e),
            )
            &&& sync_report(results).get("results"@) == Some(JsonModel::Array(results))
            &&& sync_report(results).get("mode"@) == Some(JsonModel::Str("sync"@))
            &&& fallback_report(results).get("results"@) == Some(JsonModel::Array(results))
            &&& fallback_report(results).get("fallback_note"@) is Some
        }),
{
    let cut = result::within_budget(r, max_chars);
    let o = result::result_fields(cut);
    reveal_strlit("goal");
    reveal_strlit("summary");
    reveal_strlit("success");
    reveal_strlit("error_message");
    reveal_strlit("results");
    reveal_strlit("mode");
    reveal_strlit("fallback_note");
    assert("goal"@.len() == 4);
    assert("summary"@.len() == 7);
    assert("success"@.len() == 7);
    assert("error_message"@.len() == 13);
    assert("results"@.len() == 7);
    assert("mode"@.len() == 4);
    assert("fallback_note"@.len() == 13);
    assert("error_message"@[0] == 'e');
    assert("fallback_note"@[0] == 'f');
    assert("goal"@[0] == 'g');
    assert("mode"@[0] == 'm');
    assert("results"@[0] == 'r');
    assert("success"@[0] == 's');
    assert("success"@[2] == 'c');
    assert("summary"@[0] == 's');
    assert("summary"@[2] == 'm');
    result::a_result_is_read_back(cut);
    json::a_set_field_is_read_back(o, "goal"@, JsonModel::Str(goal), "summary"@);
    json::a_set_field_is_read_back(o, "goal"@, JsonModel::Str(goal), "success"@);
    json::a_set_field_is_read_back(o, "goal"@, JsonModel::Str(goal), "error_message"@);
    let s = sync_report(results)->Object_0;
    let f = fallback_report(results)->Object_0;
    json::a_field_is_found(s, 0);
    json::a_field_is_found(s, 1);
    json::a_field_is_found(f, 0);
    json::a_field_is_found(f, 2);
}

} // verus!

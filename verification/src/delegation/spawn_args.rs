//! What a call of the `spawn_agent` tool asks for.
use vstd::prelude::*;

use crate::delegation::schema;
use crate::delegation::schema::{coerce_output_schema, text_items, SchemaModel};
use crate::isolation::IsolationLevel;
use crate::json;
use crate::json::{Json, JsonModel};
use crate::text::same_text;

verus! {

broadcast use crate::seqs::group_views;

/// A task for a sub-agent.
#[derive(Debug, PartialEq, Eq)]
pub struct SpawnTask {
    pub goal: String,
    pub context: String,
    /// The form that the answer is to have.
    pub output_schema: Option<Vec<(String, Json)>>,
}

/// What a task is.
#[verifier::ext_equal]
pub struct SpawnTaskModel {
    pub goal: Seq<char>,
    pub context: Seq<char>,
    pub output_schema: Option<SchemaModel>,
}

impl View for SpawnTask {
    type V = SpawnTaskModel;

    open spec fn view(&self) -> SpawnTaskModel {
        SpawnTaskModel {
            goal: self.goal@,
            context: self.context@,
            output_schema: schema::opt_schema(self.output_schema),
        }
    }
}

impl DeepView for SpawnTask {
    type V = SpawnTaskModel;

    open spec fn deep_view(&self) -> SpawnTaskModel {
        self@
    }
}

/// What a call of the tool asks for.
#[derive(Debug, PartialEq, Eq)]
pub struct SpawnArgs {
    pub action: String,
    pub toolsets: Vec<String>,
    pub isolation: IsolationLevel,
    pub background: bool,
    pub tasks: Vec<SpawnTask>,
}

/// What a call of the tool asks for.
#[verifier::ext_equal]
pub struct SpawnModel {
    pub action: Seq<char>,
    pub toolsets: Seq<Seq<char>>,
    pub isolation: IsolationLevel,
    pub background: bool,
    pub tasks: Seq<SpawnTaskModel>,
}

impl View for SpawnArgs {
    type V = SpawnModel;

    open spec fn view(&self) -> SpawnModel {
        SpawnModel {
            action: self.action@,
            toolsets: self.toolsets.deep_view(),
            isolation: self.isolation,
            background: self.background,
            tasks: self.tasks.deep_view(),
        }
    }
}

/// The text of a field, or the other text where there is none.
pub open spec fn text_or(value: JsonModel, key: Seq<char>, other: Seq<char>) -> Seq<char> {
    match value.at(key).as_str() {
        Some(s) => s,
        None => other,
    }
}

/// The text of a field, or the other text where there is none.
fn field_text_or(value: &Json, key: &str, other: &str) -> (r: String)
    ensures
        r@ == text_or(value@, key@, other@),
{
    match value.str_field(key) {
        Some(s) => String::from_str(s),
        None => String::from_str(other),
    }
}

/// An action that needs no tasks.
pub open spec fn is_control(action: Seq<char>) -> bool {
    action == "list"@ || action == "stop"@ || action == "steer"@
}

/// The tool sets that are asked for.
pub open spec fn asked_toolsets(args: JsonModel) -> Seq<Seq<char>> {
    match args.at("toolsets"@) {
        JsonModel::Array(items) => schema::texts_of(items),
        _ => Seq::empty(),
    }
}

/// The isolation that is asked for.
pub open spec fn asked_isolation(args: JsonModel) -> IsolationLevel {
    match args.at("isolation"@).as_str() {
        Some(s) => if s == "process"@ {
            IsolationLevel::Process
        } else if s == "container"@ {
            IsolationLevel::Container
        } else if s == "wasm"@ {
            IsolationLevel::Wasm
        } else {
            IsolationLevel::Coroutine
        },
        None => IsolationLevel::Coroutine,
    }
}

/// The task that one item of a list asks for; what it says of the form of the answer is
/// left out where that is no schema.
pub open spec fn listed_task(item: JsonModel) -> Option<SpawnTaskModel> {
    match item.at("goal"@).as_str() {
        Some(goal) => Some(
            SpawnTaskModel {
                goal,
                context: text_or(item, "context"@, Seq::empty()),
                output_schema: match schema::requested_schema(item.get("output_schema"@)) {
                    Ok(s) => s,
                    Err(_) => None,
                },
            },
        ),
        None => None,
    }
}

/// The tasks that a list asks for; none where an item has no goal.
pub open spec fn listed_tasks(items: Seq<JsonModel>) -> Option<Seq<SpawnTaskModel>>
    decreases items.len(),
{
    if items.len() == 0 {
        Some(Seq::empty())
    } else {
        match (listed_tasks(items.drop_last()), listed_task(items.last())) {
            (Some(rest), Some(t)) => Some(rest.push(t)),
            _ => None,
        }
    }
}

/// The tasks that are asked for: those of the list where there is one, else the single
/// one.
pub open spec fn asked_tasks(
    args: JsonModel,
    top_schema: Option<SchemaModel>,
) -> Result<Seq<SpawnTaskModel>, JsonModel> {
    let items = match args.at("tasks"@) {
        JsonModel::Array(items) => items,
        _ => Seq::empty(),
    };
    if items.len() > 0 {
        match listed_tasks(items) {
            Some(tasks) => Ok(tasks),
            None => Err(json::error_model("each task requires 'goal'"@)),
        }
    } else {
        match args.at("goal"@).as_str() {
            Some(goal) => Ok(
                seq![
                    SpawnTaskModel {
                        goal,
                        context: text_or(args, "context"@, Seq::empty()),
                        output_schema: top_schema,
                    },
                ],
            ),
            None => Err(json::error_model("'goal' is required for spawn_agent"@)),
        }
    }
}

/// What the call asks for, or what is wrong with it. Only an agent at the top may have
/// its tasks run in the background.
pub open spec fn asked(args: JsonModel, is_top_level: bool) -> Result<SpawnModel, JsonModel> {
    let action = text_or(args, "action"@, "spawn"@);
    if is_control(action) {
        Ok(
            SpawnModel {
                action,
                toolsets: Seq::empty(),
                isolation: IsolationLevel::Coroutine,
                background: false,
                tasks: Seq::empty(),
            },
        )
    } else {
        match schema::requested_schema(args.get("output_schema"@)) {
            Err(e) => Err(json::error_model("invalid output_schema: "@ + e)),
            Ok(top_schema) => match asked_tasks(args, top_schema) {
                Err(e) => Err(e),
                Ok(tasks) => Ok(
                    SpawnModel {
                        action,
                        toolsets: asked_toolsets(args),
                        isolation: asked_isolation(args),
                        background: is_top_level && args.at("background"@).as_bool() == Some(
                            true,
                        ),
                        tasks,
                    },
                ),
            },
        }
    }
}

/// The tool sets that are asked for.
fn read_toolsets(args: &Json) -> (r: Vec<String>)
    ensures
        r.deep_view() == asked_toolsets(args@),
{
    match args.get("toolsets") {
        Some(v) => {
            proof {
                json::model_of_parts(*v);
            }
            match v {
                Json::Array(items) => text_items(items.as_slice()),
                _ => Vec::new(),
            }
        },
        None => Vec::new(),
    }
}

/// The isolation that is asked for.
fn read_isolation(args: &Json) -> (r: IsolationLevel)
    ensures
        r == asked_isolation(args@),
{
    match args.str_field("isolation") {
        Some(s) => if same_text(s, "process") {
            IsolationLevel::Process
        } else if same_text(s, "container") {
            IsolationLevel::Container
        } else if same_text(s, "wasm") {
            IsolationLevel::Wasm
        } else {
            IsolationLevel::Coroutine
        },
        None => IsolationLevel::Coroutine,
    }
}

/// The task that one item of a list asks for.
fn read_task(item: &Json) -> (r: Option<SpawnTask>)
    ensures
        match r {
            Some(t) => listed_task(item@) == Some(t@),
            None => listed_task(item@) is None,
        },
{
    match item.str_field("goal") {
        None => None,
        Some(goal) => {
            let output_schema = match coerce_output_schema(item.get("output_schema")) {
                Ok(s) => s,
                Err(_) => None,
            };
            Some(
                SpawnTask {
                    goal: String::from_str(goal),
                    context: field_text_or_empty(item),
                    output_schema,
                },
            )
        },
    }
}

/// The context that a task gives; empty where it gives none.
fn field_text_or_empty(value: &Json) -> (r: String)
    ensures
        r@ == text_or(value@, "context"@, Seq::empty()),
{
    match value.str_field("context") {
        Some(s) => String::from_str(s),
        None => String::new(),
    }
}

/// The tasks that a list asks for.
fn read_tasks(items: &[Json]) -> (r: Option<Vec<SpawnTask>>)
    ensures
        match r {
            Some(t) => listed_tasks(json::items_model(items@)) == Some(t.deep_view()),
            None => listed_tasks(json::items_model(items@)) is None,
        },
{
    let ghost all = json::items_model(items@);
    let mut tasks: Vec<SpawnTask> = Vec::new();
    let mut i: usize = 0;
    assert(all.take(0) =~= Seq::<JsonModel>::empty());
    while i < items.len()
        invariant
            i <= items@.len(),
            all == json::items_model(items@),
            listed_tasks(all.take(i as int)) == Some(tasks.deep_view()),
        decreases items@.len() - i,
    {
        proof {
            assert(all.take(i + 1).drop_last() =~= all.take(i as int));
            assert(all.take(i + 1).last() == items@[i as int]@);
        }
        match read_task(&items[i]) {
            Some(t) => {
                tasks.push(t);
            },
            None => {
                proof {
                    one_without_goal(all, i + 1);
                }
                return None;
            },
        }
        i += 1;
    }
    assert(all.take(i as int) =~= all);
    Some(tasks)
}

/// A list whose first items give no tasks gives none.
proof fn one_without_goal(items: Seq<JsonModel>, n: int)
    requires
        0 <= n <= items.len(),
        listed_tasks(items.take(n)) is None,
    ensures
        listed_tasks(items) is None,
    decreases items.len() - n,
{
    if n < items.len() {
        assert(items.take(n + 1).drop_last() =~= items.take(n));
        one_without_goal(items, n + 1);
    } else {
        assert(items.take(n) =~= items);
    }
}

impl SpawnArgs {
    /// What the call asks for, or what is wrong with it.
    pub fn from_value(args: &Json, is_top_level: bool) -> (r: Result<Self, Json>)
        ensures
            match r {
                Ok(s) => asked(args@, is_top_level) == Ok::<SpawnModel, JsonModel>(s@),
                Err(e) => asked(args@, is_top_level) == Err::<SpawnModel, JsonModel>(e@),
            },
    {
        let action = field_text_or(args, "action", "spawn");
        if same_text(action.as_str(), "list") || same_text(action.as_str(), "stop") || same_text(
            action.as_str(),
            "steer",
        ) {
            return Ok(
                SpawnArgs {
                    action,
                    toolsets: Vec::new(),
                    isolation: IsolationLevel::Coroutine,
                    background: false,
                    tasks: Vec::new(),
                },
            );
        }
        let toolsets = read_toolsets(args);
        let isolation = read_isolation(args);
        let wants_background = match args.get("background") {
            Some(v) => match v.as_bool() {
                Some(b) => b,
                None => false,
            },
            None => false,
        };
        let background = is_top_level && wants_background;
        let top_schema = match coerce_output_schema(args.get("output_schema")) {
            Ok(s) => s,
            Err(e) => {
                let mut msg = String::from_str("invalid output_schema: ");
                msg.append(e.as_str());
                return Err(Json::error(msg.as_str()));
            },
        };
        if let Some(v) = args.get("tasks") {
            proof {
                json::model_of_parts(*v);
            }
            if let Json::Array(items) = v {
                if items.len() > 0 {
                    return match read_tasks(items.as_slice()) {
                        Some(tasks) => Ok(
                            SpawnArgs { action, toolsets, isolation, background, tasks },
                        ),
                        None => Err(Json::error("each task requires 'goal'")),
                    };
                }
            }
        }
        match args.str_field("goal") {
            Some(goal) => {
                let mut tasks: Vec<SpawnTask> = Vec::new();
                tasks.push(
                    SpawnTask {
                        goal: String::from_str(goal),
                        context: field_text_or_empty(args),
                        output_schema: top_schema,
                    },
                );
                let r = SpawnArgs { action, toolsets, isolation, background, tasks };
                assert(r.tasks.deep_view() =~= asked_tasks(
                    args@,
                    schema::opt_schema(top_schema),
                )->Ok_0);
                Ok(r)
            },
            None => Err(Json::error("'goal' is required for spawn_agent")),
        }
    }
}

/// A call that is not a control action and is understood asks for at least one task.
pub proof fn a_spawn_has_tasks(args: JsonModel, is_top_level: bool)
    ensures
        asked(args, is_top_level) matches Ok(s) ==> (s.tasks.len() > 0) == !is_control(s.action),
{
    if let JsonModel::Array(items) = args.at("tasks"@) {
        as_many_tasks(items);
    }
}

/// A list gives as many tasks as it has items.
proof fn as_many_tasks(items: Seq<JsonModel>)
    ensures
        listed_tasks(items) matches Some(t) ==> t.len() == items.len(),
    decreases items.len(),
{
    if items.len() > 0 {
        as_many_tasks(items.drop_last());
    }
}

/// Only an agent at the top has tasks run in the background.
pub proof fn children_run_no_background(args: JsonModel)
    ensures
        asked(args, false) matches Ok(s) ==> !s.background,
{
}

/// The tasks of a list are those of its items, one by one.
proof fn tasks_of_items(items: Seq<JsonModel>, i: int)
    requires
        0 <= i < items.len(),
    ensures
        listed_tasks(items) matches Some(t) ==> t.len() == items.len() && listed_task(items[i])
            == Some(t[i]),
        listed_task(items[i]) is None ==> listed_tasks(items) is None,
    decreases items.len(),
{
    as_many_tasks(items);
    if i < items.len() - 1 {
        as_many_tasks(items.drop_last());
        assert(items.drop_last()[i] == items[i]);
        tasks_of_items(items.drop_last(), i);
    }
}

/// A list whose items all have a goal is understood.
proof fn goals_are_enough(items: Seq<JsonModel>)
    requires
        forall|i: int| 0 <= i < items.len() ==> (#[trigger] items[i]).at("goal"@) is Str,
    ensures
        listed_tasks(items) is Some,
    decreases items.len(),
{
    if items.len() > 0 {
        assert forall|i: int| 0 <= i < items.drop_last().len() implies (
        #[trigger] items.drop_last()[i]).at("goal"@) is Str by {
            assert(items.drop_last()[i] == items[i]);
        }
        goals_are_enough(items.drop_last());
        assert(items[items.len() - 1].at("goal"@) is Str);
    }
}

/// A list of tasks gives, for each of its items in order, the task with the goal that the
/// item has, and with its context, which is empty where it has none. A list is refused
/// exactly where an item has no goal, and a goal beside it does not matter.
pub proof fn listed_tasks_are_as_asked_for(args: JsonModel, is_top_level: bool, i: int)
    requires
        args.at("tasks"@) matches JsonModel::Array(items) && 0 <= i < items.len(),
    ensures
        ({
            let items = args.at("tasks"@)->Array_0;
            let item = items[i];
            &&& asked(args, is_top_level) matches Ok(s) ==> !is_control(s.action) ==> {
                &&& s.tasks.len() == items.len()
                &&& item.at("goal"@) == JsonModel::Str(s.tasks[i].goal)
                &&& item.at("context"@) matches JsonModel::Str(c) ==> s.tasks[i].context == c
                &&& !(item.at("context"@) is Str) ==> s.tasks[i].context.len() == 0
                &&& schema::requested_schema(item.get("output_schema"@)) matches Ok(form)
                    ==> s.tasks[i].output_schema == form
                &&& schema::requested_schema(item.get("output_schema"@)) is Err
                    ==> s.tasks[i].output_schema is None
            }
            &&& !(item.at("goal"@) is Str) && asked(args, is_top_level) is Ok ==> is_control(
                asked(args, is_top_level)->Ok_0.action,
            )
            &&& (forall|k: int| 0 <= k < items.len() ==> (#[trigger] items[k]).at("goal"@) is Str)
                && args.get("output_schema"@) is None ==> asked(args, is_top_level) is Ok
        }),
{
    let items = args.at("tasks"@)->Array_0;
    tasks_of_items(items, i);
    if forall|k: int| 0 <= k < items.len() ==> (#[trigger] items[k]).at("goal"@) is Str {
        goals_are_enough(items);
    }
}

/// A call without a list gives one task: with its goal, its context, which is empty where
/// there is none, and the form that it asks for. Without a goal it is refused.
pub proof fn a_single_task_is_as_asked_for(args: JsonModel, is_top_level: bool)
    requires
        args.at("tasks"@) matches JsonModel::Array(items) ==> items.len() == 0,
        !(args.at("action"@) is Str),
    ensures
        asked(args, is_top_level) matches Ok(s) ==> {
            &&& s.action == "spawn"@
            &&& s.tasks.len() == 1
            &&& args.at("goal"@) == JsonModel::Str(s.tasks[0].goal)
            &&& args.at("context"@) matches JsonModel::Str(c) ==> s.tasks[0].context == c
            &&& !(args.at("context"@) is Str) ==> s.tasks[0].context.len() == 0
            &&& schema::requested_schema(args.get("output_schema"@)) == Ok::<
                Option<SchemaModel>,
                Seq<char>,
            >(s.tasks[0].output_schema)
        },
        asked(args, is_top_level) is Ok == (args.at("goal"@) is Str && schema::requested_schema(
            args.get("output_schema"@),
        ) is Ok),
{
    reveal_strlit("spawn");
    reveal_strlit("list");
    reveal_strlit("stop");
    reveal_strlit("steer");
    assert("spawn"@.len() == 5 && "spawn"@[1] == 'p' && "steer"@[1] == 't');
}

/// The actions on sub-agents that there are, to list, to stop and to steer them, need no
/// task and are always understood; every other action is a spawn.
pub proof fn control_actions_are_understood(args: JsonModel, is_top_level: bool)
    ensures
        args.at("action"@) == JsonModel::Str("list"@) || args.at("action"@) == JsonModel::Str(
            "stop"@,
        ) || args.at("action"@) == JsonModel::Str("steer"@) ==> (asked(args, is_top_level)
            matches Ok(s) && JsonModel::Str(s.action) == args.at("action"@) && s.tasks.len() == 0),
        asked(args, is_top_level) matches Ok(s) ==> (args.at("action"@) matches JsonModel::Str(a)
            ==> s.action == a) && (s.tasks.len() == 0 ==> s.action == "list"@ || s.action
            == "stop"@ || s.action == "steer"@),
{
    a_spawn_has_tasks(args, is_top_level);
}

/// The tool sets of a spawn are the texts of the list that is given; they run in the
/// background exactly where an agent at the top asks for that; and the isolation is the one
/// that is named, in the same process where none or another is.
pub proof fn a_spawn_is_set_up_as_asked_for(args: JsonModel, is_top_level: bool, name: Seq<char>)
    ensures
        asked(args, is_top_level) matches Ok(s) ==> s.tasks.len() > 0 ==> {
            &&& s.background == (is_top_level && args.at("background"@) == JsonModel::Bool(true))
            &&& args.at("toolsets"@) matches JsonModel::Array(items) ==> s.toolsets.contains(name)
                == items.contains(JsonModel::Str(name))
            &&& !(args.at("toolsets"@) is Array) ==> s.toolsets.len() == 0
            &&& s.isolation is Process == (args.at("isolation"@) == JsonModel::Str("process"@))
            &&& s.isolation is Container == (args.at("isolation"@) == JsonModel::Str(
                "container"@,
            ))
            &&& s.isolation is Wasm == (args.at("isolation"@) == JsonModel::Str("wasm"@))
        },
{
    reveal_strlit("process");
    reveal_strlit("container");
    reveal_strlit("wasm");
    assert("process"@.len() == 7 && "container"@.len() == 9 && "wasm"@.len() == 4);
    if let JsonModel::Array(items) = args.at("toolsets"@) {
        schema::texts_are_those_of_the_items(items, name);
    }
}

} // verus!

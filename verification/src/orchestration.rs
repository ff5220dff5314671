//! Workflows of calls, and what the calls of a workflow have come to.
use vstd::prelude::*;

use crate::json;
use crate::json::{field, set_field, Json, JsonModel};

verus! {

/// A step of a workflow.
#[derive(Debug, PartialEq, Eq)]
pub enum Node {
    /// A capability is called.
    Call { capability: u128, args: Json, alias: Option<String> },
    /// One step after the other.
    Sequence { nodes: Vec<Node> },
    /// The steps at the same time.
    Parallel { nodes: Vec<Node> },
    /// One of the steps, by a condition.
    Branch {
        condition: String,
        branches: Vec<(String, Node)>,
        default: Option<Box<Node>>,
    },
    /// The step again and again.
    Loop { body: Box<Node>, max_iterations: usize },
    /// The second step where the first fails.
    TryCatch { try_node: Box<Node>, catch: Box<Node> },
}

/// What the calls of a workflow have come to.
#[derive(Debug, PartialEq, Eq)]
pub struct WorkflowContext {
    /// What was kept under a name; each name stands once.
    pub outputs: Vec<(String, Json)>,
    pub last_output: Option<Json>,
}

/// The names and values that are kept.
pub type Outputs = Seq<(Seq<char>, JsonModel)>;

impl WorkflowContext {
    /// What was kept under names.
    pub open spec fn kept(self) -> Outputs {
        json::fields_model(self.outputs@)
    }

    /// Keeps a value under a name, in place of what was kept under it; it is the last
    /// value.
    pub fn set(&mut self, alias: &str, value: Json)
        ensures
            final(self).kept() == json::with_field(old(self).kept(), alias@, value@),
            final(self).last_output.deep_view() == Some(value@),
    {
        let copy = value.clone();
        set_field(&mut self.outputs, alias, copy);
        self.last_output = Some(value);
    }

    /// What was kept under a name.
    pub fn get(&self, alias: &str) -> (r: Option<&Json>)
        ensures
            match r {
                Some(v) => json::field_of(self.kept(), alias@) == Some(v@),
                None => json::field_of(self.kept(), alias@) is None,
            },
    {
        field(self.outputs.as_slice(), alias)
    }
}

impl Default for WorkflowContext {
    fn default() -> (r: Self)
        ensures
            r.kept() == Seq::<(Seq<char>, JsonModel)>::empty(),
            r.last_output is None,
    {
        let r = WorkflowContext { outputs: Vec::new(), last_output: None };
        assert(r.kept() =~= Seq::<(Seq<char>, JsonModel)>::empty());
        r
    }
}

/// The first field of a name is the one that is found.
proof fn first_is_found(o: Outputs, key: Seq<char>, i: int, k: int)
    requires
        0 <= i <= k < o.len(),
        o[k].0 == key,
        forall|j: int| i <= j < k ==> (#[trigger] o[j]).0 != key,
    ensures
        json::key_from(o, key, i) == Some(k),
    decreases k - i,
{
    if i < k {
        first_is_found(o, key, i + 1, k);
    }
}

/// Where no field has a name, none is found.
proof fn none_is_found(o: Outputs, key: Seq<char>, i: int)
    requires
        0 <= i,
        forall|j: int| i <= j < o.len() ==> (#[trigger] o[j]).0 != key,
    ensures
        json::key_from(o, key, i) is None,
    decreases o.len() - i,
{
    if i < o.len() {
        none_is_found(o, key, i + 1);
    }
}

/// What is kept under a name is read back, and what is kept under other names stays.
pub proof fn kept_values_are_read_back(
    kept: Outputs,
    alias: Seq<char>,
    value: JsonModel,
    other: Seq<char>,
)
    requires
        other != alias,
    ensures
        json::field_of(json::with_field(kept, alias, value), alias) == Some(value),
        json::field_of(json::with_field(kept, alias, value), other) == json::field_of(
            kept,
            other,
        ),
{
    let all = json::with_field(kept, alias, value);
    json::key_from_bounds(kept, alias, 0);
    json::key_from_bounds(kept, other, 0);
    match json::key_from(kept, alias, 0) {
        Some(k) => {
            assert forall|j: int| 0 <= j < k implies (#[trigger] all[j]).0 != alias by {
                assert(all[j] == kept[j]);
            }
            first_is_found(all, alias, 0, k);
        },
        None => {
            assert forall|j: int| 0 <= j < kept.len() implies (#[trigger] all[j]).0 != alias by {
                assert(all[j] == kept[j]);
            }
            first_is_found(all, alias, 0, kept.len() as int);
        },
    }
    match json::key_from(kept, other, 0) {
        Some(k) => {
            assert(all[k].0 == other);
            assert forall|j: int| 0 <= j < k implies (#[trigger] all[j]).0 != other by {
                assert(kept[j].0 != other);
            }
            first_is_found(all, other, 0, k);
        },
        None => {
            assert forall|j: int| 0 <= j < all.len() implies (#[trigger] all[j]).0 != other by {
                if j < kept.len() {
                    assert(kept[j].0 != other);
                }
            }
            none_is_found(all, other, 0);
        },
    }
}

/// What a workflow has come to.
#[derive(Debug, PartialEq, Eq)]
pub struct WorkflowResult {
    pub output: Json,
    pub context: WorkflowContext,
}

} // verus!

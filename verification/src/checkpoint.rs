//! Snapshots of agents, from which they go on after a pause or a crash.
//!
//! A snapshot belongs to a thread, and to a tenant, a user, both or neither. What is
//! stored of one scope is neither found nor changed from another.
use vstd::prelude::*;

use crate::clock::Timestamp;
use crate::errors;
use crate::errors::{debug_opt_text, LoomError};
use crate::ids;
use crate::ids::{fresh_id, id_to_text};
use crate::json;
use crate::json::{clone_fields, field, set_field, Json, JsonModel};
use crate::llm::clone_opt;
use crate::order;
use crate::scope;
use crate::scope::scope_place;
use crate::text::same_text;

verus! {

broadcast use {crate::seqs::group_views, crate::json::fields_model_push};

/// Which snapshot is meant.
#[derive(Debug, PartialEq, Eq)]
pub struct CheckpointConfig {
    pub thread_id: String,
    /// The snapshot of the thread; the latest where none is named.
    pub checkpoint_id: Option<String>,
    pub tenant_id: Option<String>,
    pub user_id: Option<String>,
}

/// Which snapshot is meant.
#[verifier::ext_equal]
pub struct WhichModel {
    pub thread_id: Seq<char>,
    pub checkpoint_id: Option<Seq<char>>,
    pub tenant_id: Option<Seq<char>>,
    pub user_id: Option<Seq<char>>,
}

impl View for CheckpointConfig {
    type V = WhichModel;

    open spec fn view(&self) -> WhichModel {
        WhichModel {
            thread_id: self.thread_id@,
            checkpoint_id: self.checkpoint_id.deep_view(),
            tenant_id: self.tenant_id.deep_view(),
            user_id: self.user_id.deep_view(),
        }
    }
}

impl Clone for CheckpointConfig {
    fn clone(&self) -> (r: Self)
        ensures
            r@ == self@,
    {
        CheckpointConfig {
            thread_id: self.thread_id.clone(),
            checkpoint_id: clone_opt(&self.checkpoint_id),
            tenant_id: clone_opt(&self.tenant_id),
            user_id: clone_opt(&self.user_id),
        }
    }
}

impl CheckpointConfig {
    /// The latest snapshot of a thread of no tenant and no user.
    pub fn new(thread_id: String) -> (r: Self)
        ensures
            r@ == (WhichModel {
                thread_id: thread_id@,
                checkpoint_id: None,
                tenant_id: None,
                user_id: None,
            }),
    {
        CheckpointConfig { thread_id, checkpoint_id: None, tenant_id: None, user_id: None }
    }

    /// That snapshot of the thread.
    pub fn with_checkpoint(self, checkpoint_id: String) -> (r: Self)
        ensures
            r@ == (WhichModel { checkpoint_id: Some(checkpoint_id@), ..self@ }),
    {
        CheckpointConfig { checkpoint_id: Some(checkpoint_id), ..self }
    }

    /// Of that tenant and that user.
    pub fn with_tenant(self, tenant_id: Option<String>, user_id: Option<String>) -> (r: Self)
        ensures
            r@ == (WhichModel {
                tenant_id: tenant_id.deep_view(),
                user_id: user_id.deep_view(),
                ..self@
            }),
    {
        CheckpointConfig { tenant_id, user_id, ..self }
    }

    /// Where the snapshots are stored.
    pub fn namespace(&self) -> (r: String)
        ensures
            r@ == scope::place_of("checkpoint"@, (self@.tenant_id, self@.user_id)),
    {
        scope_place("checkpoint", &self.tenant_id, &self.user_id)
    }

    /// Where the answers of humans to the snapshots are stored.
    pub fn resume_namespace(&self) -> (r: String)
        ensures
            r@ == scope::place_of("checkpoint_resume"@, (self@.tenant_id, self@.user_id)),
    {
        scope_place("checkpoint_resume", &self.tenant_id, &self.user_id)
    }
}

/// What is noted of a snapshot.
#[derive(Debug, PartialEq, Eq)]
pub struct CheckpointMetadata {
    pub step: u64,
    /// What it was taken for.
    pub source: String,
    pub extra: Vec<(String, Json)>,
}

/// What is noted of a snapshot.
#[verifier::ext_equal]
pub struct MetadataModel {
    pub step: u64,
    pub source: Seq<char>,
    pub extra: Seq<(Seq<char>, JsonModel)>,
}

impl View for CheckpointMetadata {
    type V = MetadataModel;

    open spec fn view(&self) -> MetadataModel {
        MetadataModel {
            step: self.step,
            source: self.source@,
            extra: json::fields_model(self.extra@),
        }
    }
}

impl Clone for CheckpointMetadata {
    fn clone(&self) -> (r: Self)
        ensures
            r@ == self@,
    {
        CheckpointMetadata {
            step: self.step,
            source: self.source.clone(),
            extra: clone_fields(self.extra.as_slice()),
        }
    }
}

impl Default for CheckpointMetadata {
    fn default() -> (r: Self)
        ensures
            r@ == (MetadataModel { step: 0, source: Seq::empty(), extra: Seq::empty() }),
    {
        let r = CheckpointMetadata { step: 0, source: String::new(), extra: Vec::new() };
        assert(json::fields_model(r.extra@) =~= Seq::<(Seq<char>, JsonModel)>::empty());
        r
    }
}

/// A snapshot.
#[derive(Debug, PartialEq, Eq)]
pub struct Checkpoint {
    pub id: String,
    pub thread_id: String,
    /// The snapshot before it.
    pub parent_id: Option<String>,
    /// The state.
    pub channel_values: Json,
    pub channel_versions: Vec<(String, u64)>,
    pub metadata: CheckpointMetadata,
    pub created_at: Timestamp,
    pub tenant_id: Option<String>,
    pub user_id: Option<String>,
}

/// A snapshot.
#[verifier::ext_equal]
pub struct CheckpointModel {
    pub id: Seq<char>,
    pub thread_id: Seq<char>,
    pub parent_id: Option<Seq<char>>,
    pub channel_values: JsonModel,
    pub channel_versions: Seq<(Seq<char>, u64)>,
    pub metadata: MetadataModel,
    pub created_at: Timestamp,
    pub tenant_id: Option<Seq<char>>,
    pub user_id: Option<Seq<char>>,
}

/// The versions of the parts of a state.
pub open spec fn versions(v: Seq<(String, u64)>) -> Seq<(Seq<char>, u64)> {
    Seq::new(v.len(), |i: int| (v[i].0@, v[i].1))
}

impl View for Checkpoint {
    type V = CheckpointModel;

    open spec fn view(&self) -> CheckpointModel {
        CheckpointModel {
            id: self.id@,
            thread_id: self.thread_id@,
            parent_id: self.parent_id.deep_view(),
            channel_values: self.channel_values@,
            channel_versions: versions(self.channel_versions@),
            metadata: self.metadata@,
            created_at: self.created_at,
            tenant_id: self.tenant_id.deep_view(),
            user_id: self.user_id.deep_view(),
        }
    }
}

impl DeepView for Checkpoint {
    type V = CheckpointModel;

    open spec fn deep_view(&self) -> CheckpointModel {
        self@
    }
}

impl Clone for Checkpoint {
    fn clone(&self) -> (r: Self)
        ensures
            r@ == self@,
    {
        let mut channel_versions: Vec<(String, u64)> = Vec::new();
        let mut i: usize = 0;
        while i < self.channel_versions.len()
            invariant
                i <= self.channel_versions@.len(),
                channel_versions@.len() == i,
                forall|j: int|
                    0 <= j < i ==> (#[trigger] channel_versions@[j]).0@
                        == self.channel_versions@[j].0@ && channel_versions@[j].1
                        == self.channel_versions@[j].1,
            decreases self.channel_versions@.len() - i,
        {
            channel_versions.push(
                (self.channel_versions[i].0.clone(), self.channel_versions[i].1),
            );
            i += 1;
        }
        assert(versions(channel_versions@) =~= versions(self.channel_versions@));
        Checkpoint {
            id: self.id.clone(),
            thread_id: self.thread_id.clone(),
            parent_id: clone_opt(&self.parent_id),
            channel_values: self.channel_values.clone(),
            channel_versions,
            metadata: self.metadata.clone(),
            created_at: self.created_at,
            tenant_id: clone_opt(&self.tenant_id),
            user_id: clone_opt(&self.user_id),
        }
    }
}

impl Checkpoint {
    /// Where the snapshot is stored.
    pub fn namespace(&self) -> (r: String)
        ensures
            r@ == scope::place_of("checkpoint"@, (self@.tenant_id, self@.user_id)),
    {
        scope_place("checkpoint", &self.tenant_id, &self.user_id)
    }
}

/// A snapshot that was found, with what a human has answered to it.
#[derive(Debug, PartialEq, Eq)]
pub struct CheckpointTuple {
    pub config: CheckpointConfig,
    pub checkpoint: Checkpoint,
    pub pending_resume: Option<Json>,
}

// ---------- finding ----------

/// The snapshot is of the tenant and user that are named; of none where none is named.
pub open spec fn in_scope(cp: CheckpointModel, which: WhichModel) -> bool {
    match (which.tenant_id, which.user_id) {
        (Some(t), Some(u)) => cp.tenant_id == Some(t) && cp.user_id == Some(u),
        (Some(t), None) => cp.tenant_id == Some(t),
        (None, Some(u)) => cp.user_id == Some(u),
        (None, None) => cp.tenant_id is None && cp.user_id is None,
    }
}

/// The text is that of the other.
fn is_text(a: &Option<String>, b: &str) -> (r: bool)
    ensures
        r == (a.deep_view() == Some(b@)),
{
    match a {
        Some(s) => same_text(s.as_str(), b),
        None => false,
    }
}

/// Whether the snapshot is of the tenant and user that are named.
pub fn belongs_to_scope(cp: &Checkpoint, config: &CheckpointConfig) -> (r: bool)
    ensures
        r == in_scope(cp@, config@),
{
    match (&config.tenant_id, &config.user_id) {
        (Some(t), Some(u)) => is_text(&cp.tenant_id, t.as_str()) && is_text(
            &cp.user_id,
            u.as_str(),
        ),
        (Some(t), None) => is_text(&cp.tenant_id, t.as_str()),
        (None, Some(u)) => is_text(&cp.user_id, u.as_str()),
        (None, None) => cp.tenant_id.is_none() && cp.user_id.is_none(),
    }
}

/// When a snapshot was taken, as a number.
pub open spec fn age_key() -> spec_fn(CheckpointModel) -> int {
    |cp: CheckpointModel| cp.created_at.secs * 4294967296 + cp.created_at.nanos
}

/// The other way round.
pub open spec fn newest_key() -> spec_fn(CheckpointModel) -> int {
    |cp: CheckpointModel| -(cp.created_at.secs * 4294967296 + cp.created_at.nanos)
}

/// The snapshot is of the thread and of the scope.
pub open spec fn is_meant(cp: CheckpointModel, which: WhichModel) -> bool {
    cp.thread_id == which.thread_id && in_scope(cp, which)
}

/// The snapshots of a thread and a scope, the oldest first.
pub open spec fn thread_of(
    stored: Seq<CheckpointModel>,
    which: WhichModel,
) -> Seq<CheckpointModel> {
    order::ordered(stored.filter(|cp: CheckpointModel| is_meant(cp, which)), age_key())
}

/// The snapshots of a thread and a scope, the newest first.
pub open spec fn newest_first(
    stored: Seq<CheckpointModel>,
    which: WhichModel,
) -> Seq<CheckpointModel> {
    order::ordered(thread_of(stored, which), newest_key())
}

/// The first snapshot of that name at or after `i`.
pub open spec fn named_from(
    list: Seq<CheckpointModel>,
    id: Seq<char>,
    i: int,
) -> Option<CheckpointModel>
    decreases list.len() - i,
{
    if i < 0 || i >= list.len() {
        None
    } else if list[i].id == id {
        Some(list[i])
    } else {
        named_from(list, id, i + 1)
    }
}

/// The snapshot that is meant, of those of the thread: the one that is named, else the
/// latest.
pub open spec fn resolved(
    list: Seq<CheckpointModel>,
    which: WhichModel,
) -> Option<CheckpointModel> {
    match which.checkpoint_id {
        Some(id) => named_from(list, id, 0),
        None => if list.len() == 0 {
            None
        } else {
            Some(list.last())
        },
    }
}

/// Puts snapshots in order; `newest` says that the newest come first.
fn sort_checkpoints(list: Vec<Checkpoint>, newest: bool) -> (r: Vec<Checkpoint>)
    ensures
        r.deep_view() == order::ordered(
            list.deep_view(),
            if newest {
                newest_key()
            } else {
                age_key()
            },
        ),
{
    let ghost key = if newest {
        newest_key()
    } else {
        age_key()
    };
    let ghost all = list.deep_view();
    let mut out: Vec<Checkpoint> = Vec::new();
    let mut i: usize = 0;
    assert(all.take(0) =~= Seq::<CheckpointModel>::empty());
    while i < list.len()
        invariant
            i <= list@.len(),
            all == list.deep_view(),
            key == if newest {
                newest_key()
            } else {
                age_key()
            },
            out.deep_view() == order::ordered(all.take(i as int), key),
        decreases list@.len() - i,
    {
        let ghost sorted = out.deep_view();
        let ghost x = all[i as int];
        proof {
            assert(all.take(i + 1).drop_last() =~= all.take(i as int));
            assert(all.take(i + 1).last() == x);
            order::order_holds(all.take(i as int), key);
            order::place_bounds(sorted, key, x);
        }
        let mut k: usize = out.len();
        assert(sorted.take(k as int) =~= sorted);
        while k > 0 && comes_after(&out[k - 1], &list[i], newest)
            invariant
                k <= out@.len(),
                i < list@.len(),
                sorted == out.deep_view(),
                all == list.deep_view(),
                x == all[i as int],
                key == if newest {
                    newest_key()
                } else {
                    age_key()
                },
                order::place(sorted, key, x) == order::place(sorted.take(k as int), key, x),
            decreases k,
        {
            assert(sorted.take(k as int).drop_last() =~= sorted.take(k - 1));
            assert(sorted.take(k as int).last() == sorted[k - 1]);
            k = k - 1;
        }
        proof {
            if k > 0 {
                assert(sorted.take(k as int).last() == sorted[k - 1]);
            }
            assert(order::place(sorted, key, x) == k);
        }
        let copy = list[i].clone();
        out.insert(k, copy);
        assert(out.deep_view() =~= sorted.insert(k as int, x));
        i += 1;
    }
    assert(all.take(i as int) =~= all);
    out
}

/// Whether the first snapshot comes after the second.
fn comes_after(a: &Checkpoint, b: &Checkpoint, newest: bool) -> (r: bool)
    ensures
        r == if newest {
            newest_key()(a@) > newest_key()(b@)
        } else {
            age_key()(a@) > age_key()(b@)
        },
{
    if newest {
        b.created_at.after(&a.created_at)
    } else {
        a.created_at.after(&b.created_at)
    }
}

/// The snapshots of a thread and a scope, the oldest first.
pub fn load_checkpoints(stored: &[Checkpoint], config: &CheckpointConfig) -> (r: Vec<Checkpoint>)
    ensures
        r.deep_view() == thread_of(stored.deep_view(), config@),
{
    let ghost all = stored.deep_view();
    let ghost which = config@;
    let ghost meant = |cp: CheckpointModel| is_meant(cp, which);
    let mut out: Vec<Checkpoint> = Vec::new();
    let mut i: usize = 0;
    assert(all.take(0).filter(meant) =~= Seq::<CheckpointModel>::empty());
    while i < stored.len()
        invariant
            i <= stored@.len(),
            all == stored.deep_view(),
            which == config@,
            meant == (|cp: CheckpointModel| is_meant(cp, which)),
            out.deep_view() == all.take(i as int).filter(meant),
        decreases stored@.len() - i,
    {
        proof {
            reveal(Seq::filter);
            assert(all.take(i + 1).drop_last() =~= all.take(i as int));
            assert(all.take(i + 1).last() == all[i as int]);
        }
        if same_text(stored[i].thread_id.as_str(), config.thread_id.as_str()) && belongs_to_scope(
            &stored[i],
            config,
        ) {
            out.push(stored[i].clone());
        }
        i += 1;
    }
    assert(all.take(i as int) =~= all);
    sort_checkpoints(out, false)
}

/// The snapshot that is meant, of those of the thread.
pub fn resolve(list: &[Checkpoint], config: &CheckpointConfig) -> (r: Option<Checkpoint>)
    ensures
        r.deep_view() == resolved(list.deep_view(), config@),
{
    let ghost all = list.deep_view();
    match &config.checkpoint_id {
        Some(id) => {
            let mut i: usize = 0;
            while i < list.len()
                invariant
                    i <= list@.len(),
                    all == list.deep_view(),
                    config@.checkpoint_id == Some(id@),
                    named_from(all, id@, 0) == named_from(all, id@, i as int),
                decreases list@.len() - i,
            {
                if same_text(list[i].id.as_str(), id.as_str()) {
                    return Some(list[i].clone());
                }
                i += 1;
            }
            None
        },
        None => {
            let n: usize = list.len();
            if n == 0 {
                None
            } else {
                Some(list[n - 1].clone())
            }
        },
    }
}

/// The snapshot that is meant, of those that are stored.
pub fn get_checkpoint(stored: &[Checkpoint], config: &CheckpointConfig) -> (r: Option<Checkpoint>)
    ensures
        r.deep_view() == resolved(thread_of(stored.deep_view(), config@), config@),
{
    let list = load_checkpoints(stored, config);
    resolve(list.as_slice(), config)
}

/// The snapshots of a thread and a scope, the newest first.
pub fn list_checkpoints(stored: &[Checkpoint], config: &CheckpointConfig) -> (r: Vec<Checkpoint>)
    ensures
        r.deep_view() == newest_first(stored.deep_view(), config@),
{
    sort_checkpoints(load_checkpoints(stored, config), true)
}

/// The positions of the snapshots of a thread and a scope, for them to be deleted.
pub fn thread_positions(stored: &[Checkpoint], config: &CheckpointConfig) -> (r: Vec<usize>)
    ensures
        forall|k: int|
            0 <= k < r@.len() ==> (#[trigger] r@[k]) < stored@.len() && is_meant(
                stored@[r@[k] as int]@,
                config@,
            ),
        forall|i: int|
            0 <= i < stored@.len() && is_meant((#[trigger] stored@[i])@, config@)
                ==> r@.contains(i as usize),
        r@.no_duplicates(),
{
    let mut out: Vec<usize> = Vec::new();
    let mut i: usize = 0;
    while i < stored.len()
        invariant
            i <= stored@.len(),
            forall|k: int|
                0 <= k < out@.len() ==> (#[trigger] out@[k]) < i && is_meant(
                    stored@[out@[k] as int]@,
                    config@,
                ),
            forall|j: int|
                0 <= j < i && is_meant((#[trigger] stored@[j])@, config@) ==> out@.contains(
                    j as usize,
                ),
            out@.no_duplicates(),
        decreases stored@.len() - i,
    {
        if same_text(stored[i].thread_id.as_str(), config.thread_id.as_str()) && belongs_to_scope(
            &stored[i],
            config,
        ) {
            let ghost before = out@;
            out.push(i);
            proof {
                assert(out@[out@.len() - 1] == i);
                assert forall|x: usize| before.contains(x) implies out@.contains(x) by {
                    let k = choose|k: int| 0 <= k < before.len() && before[k] == x;
                    assert(out@[k] == x);
                }
            }
        }
        i += 1;
    }
    out
}

// ---------- storing ----------

/// A snapshot as it is stored: with a name and a moment where it has none. `id` and `now`
/// stand for those that are given to it.
pub open spec fn completed(
    cp: CheckpointModel,
    id: Seq<char>,
    now: Timestamp,
) -> CheckpointModel {
    CheckpointModel {
        id: if cp.id.len() == 0 {
            id
        } else {
            cp.id
        },
        created_at: if cp.created_at.secs * 1000 + cp.created_at.nanos as int / 1_000_000 <= 0 {
            now
        } else {
            cp.created_at
        },
        ..cp
    }
}

/// A snapshot as it is stored.
pub fn complete_checkpoint(cp: Checkpoint, now: Timestamp) -> (r: Checkpoint)
    ensures
        exists|id: u128| r@ == completed(cp@, #[trigger] ids::id_text(id), now),
{
    let id: u128 = fresh_id();
    let id_text = id_to_text(id);
    let mut out = cp;
    if out.id.as_str().unicode_len() == 0 {
        out.id = id_text;
    }
    let ms: i128 = out.created_at.secs as i128 * 1000 + (out.created_at.nanos / 1_000_000) as i128;
    if ms <= 0 {
        out.created_at = now;
    }
    assert(out@ == completed(cp@, ids::id_text(id), now));
    out
}

/// A new snapshot of a state.
pub open spec fn fresh_checkpoint(
    id: Seq<char>,
    thread_id: Seq<char>,
    parent_id: Option<Seq<char>>,
    channel_values: JsonModel,
    metadata: MetadataModel,
    now: Timestamp,
    tenant_id: Option<Seq<char>>,
    user_id: Option<Seq<char>>,
) -> CheckpointModel {
    CheckpointModel {
        id,
        thread_id,
        parent_id,
        channel_values,
        channel_versions: Seq::empty(),
        metadata,
        created_at: now,
        tenant_id,
        user_id,
    }
}

/// A new snapshot of a state, of no tenant and no user, with a fresh name.
pub fn make_checkpoint(
    thread_id: String,
    parent_id: Option<String>,
    channel_values: Json,
    metadata: CheckpointMetadata,
    now: Timestamp,
) -> (r: Checkpoint)
    ensures
        exists|id: u128|
            r@ == fresh_checkpoint(
                #[trigger] ids::id_text(id),
                thread_id@,
                parent_id.deep_view(),
                channel_values@,
                metadata@,
                now,
                None,
                None,
            ),
{
    make_checkpoint_scoped(thread_id, parent_id, channel_values, metadata, now, None, None)
}

/// A new snapshot of a state, of a tenant and a user, with a fresh name.
pub fn make_checkpoint_scoped(
    thread_id: String,
    parent_id: Option<String>,
    channel_values: Json,
    metadata: CheckpointMetadata,
    now: Timestamp,
    tenant_id: Option<String>,
    user_id: Option<String>,
) -> (r: Checkpoint)
    ensures
        exists|id: u128|
            r@ == fresh_checkpoint(
                #[trigger] ids::id_text(id),
                thread_id@,
                parent_id.deep_view(),
                channel_values@,
                metadata@,
                now,
                tenant_id.deep_view(),
                user_id.deep_view(),
            ),
{
    let id: u128 = fresh_id();
    let r = Checkpoint {
        id: id_to_text(id),
        thread_id,
        parent_id,
        channel_values,
        channel_versions: Vec::new(),
        metadata,
        created_at: now,
        tenant_id,
        user_id,
    };
    assert(r@ =~= fresh_checkpoint(
        ids::id_text(id),
        thread_id@,
        parent_id.deep_view(),
        channel_values@,
        metadata@,
        now,
        tenant_id.deep_view(),
        user_id.deep_view(),
    )) by {
        assert(versions(r.channel_versions@) =~= Seq::<(Seq<char>, u64)>::empty());
    }
    r
}

// ---------- what humans have answered ----------

/// The answers to the snapshots of a thread, by the names of the snapshots.
pub type Resumes = Seq<(Seq<char>, JsonModel)>;

/// The answers that a stored value holds; none where it holds no object.
pub open spec fn stored_resumes(value: Option<JsonModel>) -> Resumes {
    match value {
        Some(JsonModel::Object(o)) => o,
        _ => Seq::empty(),
    }
}

/// The answers that a stored value holds.
pub fn load_resumes(value: Option<&Json>) -> (r: Vec<(String, Json)>)
    ensures
        json::fields_model(r@) == stored_resumes(
            match value {
                Some(v) => Some(v@),
                None => None,
            },
        ),
{
    match value {
        Some(v) => {
            proof {
                json::model_of_parts(*v);
            }
            match v {
                Json::Object(o) => clone_fields(o.as_slice()),
                _ => {
                    let r: Vec<(String, Json)> = Vec::new();
                    assert(json::fields_model(r@) =~= Seq::<(Seq<char>, JsonModel)>::empty());
                    r
                },
            }
        },
        None => {
            let r: Vec<(String, Json)> = Vec::new();
            assert(json::fields_model(r@) =~= Seq::<(Seq<char>, JsonModel)>::empty());
            r
        },
    }
}

/// The snapshot that is meant, with the answer to it.
pub fn get_tuple(
    stored: &[Checkpoint],
    resumes: &[(String, Json)],
    config: &CheckpointConfig,
) -> (r: Option<CheckpointTuple>)
    ensures
        match r {
            Some(t) => resolved(thread_of(stored.deep_view(), config@), config@) == Some(
                t.checkpoint@,
            ) && t.config@ == config@ && t.pending_resume.deep_view() == json::field_of(
                json::fields_model(resumes@),
                t.checkpoint.id@,
            ),
            None => resolved(thread_of(stored.deep_view(), config@), config@) is None,
        },
{
    match get_checkpoint(stored, config) {
        None => None,
        Some(cp) => {
            let pending_resume = match field(resumes, cp.id.as_str()) {
                Some(v) => Some(v.clone()),
                None => None,
            };
            Some(CheckpointTuple { config: config.clone(), checkpoint: cp, pending_resume })
        },
    }
}

/// The snapshot is not there.
pub open spec fn not_found(which: WhichModel) -> Seq<char> {
    "checkpoint "@ + which.checkpoint_id->Some_0 + " not found in current scope (thread="@
        + which.thread_id + ", tenant="@ + errors::debug_opt(which.tenant_id) + ", user="@
        + errors::debug_opt(which.user_id) + ")"@
}

/// The answers with one more: to the snapshot that is meant. Nothing is to be stored where
/// the latest snapshot is meant and there is none.
pub fn put_writes(
    stored: &[Checkpoint],
    resumes: Vec<(String, Json)>,
    config: &CheckpointConfig,
    writes: Json,
) -> (r: Result<Option<Vec<(String, Json)>>, LoomError>)
    ensures
        ({
            let found = resolved(thread_of(stored.deep_view(), config@), config@);
            match r {
                Ok(Some(after)) => found is Some && json::fields_model(after@)
                    == json::with_field(
                    json::fields_model(resumes@),
                    found->Some_0.id,
                    writes@,
                ),
                Ok(None) => found is None && config.checkpoint_id is None,
                Err(e) => found is None && config.checkpoint_id is Some && e is Other
                    && e.text() == not_found(config@),
            }
        }),
{
    match get_checkpoint(stored, config) {
        Some(cp) => {
            let mut after = resumes;
            set_field(&mut after, cp.id.as_str(), writes);
            Ok(Some(after))
        },
        None => match &config.checkpoint_id {
            None => Ok(None),
            Some(id) => {
                let mut s = String::from_str("checkpoint ");
                s.append(id.as_str());
                s.append(" not found in current scope (thread=");
                s.append(config.thread_id.as_str());
                s.append(", tenant=");
                s.append(debug_opt_text(&config.tenant_id).as_str());
                s.append(", user=");
                s.append(debug_opt_text(&config.user_id).as_str());
                s.append(")");
                Err(LoomError::Other(s))
            },
        },
    }
}

/// An answer to another snapshot.
pub open spec fn to_another(id: Seq<char>) -> spec_fn((Seq<char>, JsonModel)) -> bool {
    |e: (Seq<char>, JsonModel)| e.0 != id
}

/// The answers without those to a snapshot.
pub open spec fn without_answer(resumes: Resumes, id: Seq<char>) -> Resumes {
    resumes.filter(to_another(id))
}

/// The answers once the one to the snapshot that is named is taken. Nothing is to be
/// stored where none is named.
pub fn clear_resume(resumes: &[(String, Json)], config: &CheckpointConfig) -> (r: Option<
    Vec<(String, Json)>,
>)
    ensures
        match r {
            Some(after) => config@.checkpoint_id matches Some(id) && json::fields_model(after@)
                == without_answer(json::fields_model(resumes@), id),
            None => config.checkpoint_id is None,
        },
{
    match &config.checkpoint_id {
        None => None,
        Some(id) => {
            let ghost all = json::fields_model(resumes@);
            let ghost name = id@;
            let ghost other = to_another(name);
            let mut out: Vec<(String, Json)> = Vec::new();
            let mut i: usize = 0;
            assert(all.take(0).filter(other) =~= Seq::<(Seq<char>, JsonModel)>::empty());
            assert(json::fields_model(out@) =~= Seq::<(Seq<char>, JsonModel)>::empty());
            while i < resumes.len()
                invariant
                    i <= resumes@.len(),
                    all == json::fields_model(resumes@),
                    name == id@,
                    other == to_another(name),
                    json::fields_model(out@) == all.take(i as int).filter(other),
                decreases resumes@.len() - i,
            {
                proof {
                    reveal(Seq::filter);
                    assert(all.take(i + 1).drop_last() =~= all.take(i as int));
                    assert(all.take(i + 1).last() == (
                        resumes@[i as int].0@,
                        resumes@[i as int].1@,
                    ));
                }
                if !same_text(resumes[i].0.as_str(), id.as_str()) {
                    out.push((resumes[i].0.clone(), resumes[i].1.clone()));
                }
                i += 1;
            }
            assert(all.take(i as int) =~= all);
            assert(config@.checkpoint_id == Some(name));
            Some(out)
        },
    }
}

// ---------- laws ----------

/// The checkpoint that is meant and what a human has answered to it.
pub open spec fn pending(
    stored: Seq<CheckpointModel>,
    resumes: Resumes,
    which: WhichModel,
) -> Option<(Seq<char>, JsonModel)> {
    match resolved(thread_of(stored, which), which) {
        Some(cp) => match json::field_of(resumes, cp.id) {
            Some(v) => Some((cp.id, v)),
            None => None,
        },
        None => None,
    }
}

/// Takes what a human has answered to a checkpoint: the answer, and the answers that are
/// left. Nothing is taken where there is no answer.
pub fn consume_resume_value(
    stored: &[Checkpoint],
    resumes: &[(String, Json)],
    config: &CheckpointConfig,
) -> (r: Option<(Json, Vec<(String, Json)>)>)
    ensures
        ({
            let before = json::fields_model(resumes@);
            match r {
                Some((value, left)) => pending(stored.deep_view(), before, config@) matches Some(
                    (id, v),
                ) && v == value@ && json::fields_model(left@) == without_answer(before, id),
                None => pending(stored.deep_view(), before, config@) is None,
            }
        }),
{
    match get_tuple(stored, resumes, config) {
        None => None,
        Some(tuple) => match tuple.pending_resume {
            None => None,
            Some(value) => {
                let found = config.clone().with_checkpoint(tuple.checkpoint.id);
                match clear_resume(resumes, &found) {
                    Some(left) => Some((value, left)),
                    None => None,
                }
            },
        },
    }
}

/// What is found of a thread and a scope is of that thread and that scope, and is stored.
pub proof fn scopes_are_kept_apart(
    stored: Seq<CheckpointModel>,
    which: WhichModel,
    cp: CheckpointModel,
)
    ensures
        thread_of(stored, which).contains(cp) == (stored.contains(cp) && is_meant(cp, which)),
        newest_first(stored, which).contains(cp) == (stored.contains(cp) && is_meant(cp, which)),
{
    broadcast use vstd::seq_lib::group_to_multiset_ensures;

    let meant = |cp: CheckpointModel| is_meant(cp, which);
    let picked = stored.filter(meant);
    order::order_holds(picked, age_key());
    order::order_holds(thread_of(stored, which), newest_key());
    assert(picked.contains(cp) == picked.to_multiset().contains(cp));
    assert(thread_of(stored, which).contains(cp) == picked.contains(cp));
    if picked.contains(cp) {
        stored.lemma_filter_contains_rev(meant, cp);
        let k = choose|k: int| 0 <= k < picked.len() && picked[k] == cp;
        assert(meant(picked[k]));
    }
    if stored.contains(cp) && is_meant(cp, which) {
        let k = choose|k: int| 0 <= k < stored.len() && stored[k] == cp;
        assert(meant(stored[k]));
        assert(picked.contains(stored[k]));
    }
}

/// A snapshot with a name is found among those of the thread only under its name.
proof fn named_is_there(list: Seq<CheckpointModel>, id: Seq<char>, i: int)
    requires
        0 <= i,
    ensures
        match named_from(list, id, i) {
            Some(cp) => cp.id == id && list.contains(cp),
            None => forall|j: int| i <= j < list.len() ==> (#[trigger] list[j]).id != id,
        },
    decreases list.len() - i,
{
    if i < list.len() && list[i].id != id {
        named_is_there(list, id, i + 1);
    }
}

/// The snapshots of different tenants and users are stored in different places, and so
/// are the answers to them.
pub proof fn snapshots_are_stored_apart(cp: CheckpointModel, which: WhichModel)
    requires
        (cp.tenant_id, cp.user_id) != (which.tenant_id, which.user_id),
    ensures
        scope::place_of("checkpoint"@, (cp.tenant_id, cp.user_id)) != scope::place_of(
            "checkpoint"@,
            (which.tenant_id, which.user_id),
        ),
        scope::place_of("checkpoint_resume"@, (cp.tenant_id, cp.user_id)) != scope::place_of(
            "checkpoint_resume"@,
            (which.tenant_id, which.user_id),
        ),
{
    let s = (cp.tenant_id, cp.user_id);
    let other = (which.tenant_id, which.user_id);
    scope::scopes_are_stored_apart("checkpoint"@, s, other);
    scope::scopes_are_stored_apart("checkpoint_resume"@, s, other);
}

/// What is read belongs to the scope that asks for it; where a name is given it has that
/// name, and where none is given nothing of the thread is newer.
pub proof fn a_read_stays_in_its_scope(stored: Seq<CheckpointModel>, which: WhichModel)
    ensures
        resolved(thread_of(stored, which), which) matches Some(cp) ==> {
            &&& stored.contains(cp)
            &&& is_meant(cp, which)
            &&& which.checkpoint_id matches Some(id) ==> cp.id == id
            &&& which.checkpoint_id is None ==> forall|other: CheckpointModel|
                stored.contains(other) && is_meant(other, which) ==> !other.created_at.is_after(
                    cp.created_at,
                )
        },
{
    let list = thread_of(stored, which);
    match resolved(list, which) {
        Some(cp) => {
            match which.checkpoint_id {
                Some(id) => {
                    named_is_there(list, id, 0);
                },
                None => {
                    assert(list[list.len() - 1] == cp);
                },
            }
            scopes_are_kept_apart(stored, which, cp);
            if which.checkpoint_id is None {
                order::order_holds(
                    stored.filter(|c: CheckpointModel| is_meant(c, which)),
                    age_key(),
                );
                assert forall|other: CheckpointModel|
                    stored.contains(other) && is_meant(
                        other,
                        which,
                    ) implies !other.created_at.is_after(cp.created_at) by {
                    scopes_are_kept_apart(stored, which, other);
                    let k = choose|k: int| 0 <= k < list.len() && list[k] == other;
                    if k < list.len() - 1 {
                        assert(age_key()(list[k]) <= age_key()(list[list.len() - 1]));
                    }
                }
            }
        },
        None => {},
    }
}

/// A snapshot that is stored is read back as the latest of its thread, where none of the
/// thread is newer.
pub proof fn a_write_is_read_back(
    stored: Seq<CheckpointModel>,
    cp: CheckpointModel,
    which: WhichModel,
)
    requires
        is_meant(cp, which),
        which.checkpoint_id is None,
        forall|other: CheckpointModel|
            stored.contains(other) && is_meant(other, which) ==> !other.created_at.is_after(
                cp.created_at,
            ),
    ensures
        resolved(thread_of(stored.push(cp), which), which) == Some(cp),
{
    let meant = |c: CheckpointModel| is_meant(c, which);
    let key = age_key();
    let before = stored.filter(meant);
    let after = stored.push(cp).filter(meant);
    assert(after =~= before.push(cp)) by {
        reveal(Seq::filter);
        assert(stored.push(cp).drop_last() =~= stored);
    }
    let rest = order::ordered(before, key);
    assert(after.drop_last() =~= before);
    order::order_holds(before, key);
    order::place_bounds(rest, key, cp);
    if rest.len() > 0 {
        let last = rest.last();
        assert(rest[rest.len() - 1] == last);
        scopes_are_kept_apart(stored, which, last);
        assert(thread_of(stored, which).contains(last));
        assert(!last.created_at.is_after(cp.created_at));
    }
    assert(order::place(rest, key, cp) == rest.len());
}

/// What a human has answered to a snapshot is read once: it is there after it was stored,
/// and gone after it was taken.
pub proof fn an_answer_is_taken_once(resumes: Resumes, id: Seq<char>, value: JsonModel)
    ensures
        json::field_of(json::with_field(resumes, id, value), id) == Some(value),
        json::field_of(without_answer(resumes, id), id) is None,
{
    let other = to_another(id);
    assert(id.push('x').len() != id.len());
    crate::orchestration::kept_values_are_read_back(resumes, id, value, id.push('x'));
    let left = without_answer(resumes, id);
    json::key_from_bounds(left, id, 0);
    match json::key_from(left, id, 0) {
        Some(k) => {
            assert(other(left[k]));
        },
        None => {},
    }
}

/// An answer that has been taken is not taken again.
pub proof fn a_taken_answer_is_gone(
    stored: Seq<CheckpointModel>,
    resumes: Resumes,
    which: WhichModel,
    id: Seq<char>,
    value: JsonModel,
)
    requires
        pending(stored, resumes, which) == Some((id, value)),
    ensures
        pending(stored, without_answer(resumes, id), which) is None,
{
    an_answer_is_taken_once(resumes, id, JsonModel::Null);
}

/// The answers to other snapshots stay where they are.
pub proof fn other_answers_stay(
    resumes: Resumes,
    id: Seq<char>,
    value: JsonModel,
    other: Seq<char>,
)
    requires
        other != id,
    ensures
        json::field_of(json::with_field(resumes, id, value), other) == json::field_of(
            resumes,
            other,
        ),
{
    crate::orchestration::kept_values_are_read_back(resumes, id, value, other);
}

/// Snapshots and answers are never stored in the same place, whatever the scopes.
pub proof fn answers_are_stored_apart(
    a: scope::ScopeModel,
    b: scope::ScopeModel,
)
    ensures
        scope::place_of("checkpoint"@, a) != scope::place_of("checkpoint_resume"@, b),
{
    reveal_strlit("checkpoint");
    reveal_strlit("checkpoint_resume");
    reveal_strlit(":");
    reveal_strlit("-pair:");
    reveal_strlit("-tenant:");
    reveal_strlit("-user:");
    reveal_strlit(":global");
    let x = scope::place_of("checkpoint"@, a);
    let y = scope::place_of("checkpoint_resume"@, b);
    assert(x[10] == ':' || x[10] == '-');
    assert(y[10] == '_');
}

/// A snapshot is meant where it is of the thread that is asked for and belongs to whoever
/// asks: to the tenant and the user that are named, and to nobody where none is named.
pub proof fn whose_a_snapshot_is(cp: CheckpointModel, which: WhichModel)
    ensures
        is_meant(cp, which) == (cp.thread_id == which.thread_id && (which.tenant_id is Some
            ==> cp.tenant_id == which.tenant_id) && (which.user_id is Some ==> cp.user_id
            == which.user_id) && (which.tenant_id is None && which.user_id is None
            ==> cp.tenant_id is None && cp.user_id is None)),
{
}

/// A snapshot that is asked for by its identifier is found where it is there and is meant;
/// without an identifier one is found where any is there.
pub proof fn a_snapshot_that_is_there_is_found(
    stored: Seq<CheckpointModel>,
    which: WhichModel,
    cp: CheckpointModel,
)
    requires
        stored.contains(cp),
        is_meant(cp, which),
        which.checkpoint_id matches Some(id) ==> cp.id == id,
    ensures
        resolved(thread_of(stored, which), which) is Some,
        which.checkpoint_id is Some ==> resolved(thread_of(stored, which), which)->0.id == cp.id,
{
    let list = thread_of(stored, which);
    scopes_are_kept_apart(stored, which, cp);
    let k = choose|k: int| 0 <= k < list.len() && list[k] == cp;
    if let Some(id) = which.checkpoint_id {
        named_is_there(list, id, 0);
        assert(list[k].id == id);
    }
}

/// Snapshots are listed from the newest to the oldest.
pub proof fn snapshots_are_listed_newest_first(
    stored: Seq<CheckpointModel>,
    which: WhichModel,
    i: int,
    j: int,
)
    requires
        0 <= i < j < newest_first(stored, which).len(),
    ensures
        !newest_first(stored, which)[j].created_at.is_after(
            newest_first(stored, which)[i].created_at,
        ),
{
    let list = newest_first(stored, which);
    order::order_holds(thread_of(stored, which), newest_key());
    assert(newest_key()(list[i]) <= newest_key()(list[j]));
}

/// A snapshot that is stored keeps its identifier and its moment where it has them, and is
/// given them where not; nothing else of it changes.
pub proof fn a_snapshot_is_completed(cp: CheckpointModel, id: Seq<char>, now: Timestamp)
    ensures
        ({
            let c = completed(cp, id, now);
            &&& cp.id.len() > 0 ==> c.id == cp.id
            &&& cp.id.len() == 0 ==> c.id == id
            &&& cp.created_at.secs > 0 ==> c.created_at == cp.created_at
            &&& cp.created_at.secs == 0 && cp.created_at.nanos == 0 ==> c.created_at == now
            &&& c.thread_id == cp.thread_id
            &&& c.parent_id == cp.parent_id
            &&& c.channel_values == cp.channel_values
            &&& c.metadata == cp.metadata
            &&& c.tenant_id == cp.tenant_id
            &&& c.user_id == cp.user_id
        }),
{
}

/// A new snapshot holds what is to be kept, of the thread, the one before it and the owner
/// that are given.
pub proof fn a_snapshot_holds_what_is_kept(
    id: Seq<char>,
    thread_id: Seq<char>,
    parent_id: Option<Seq<char>>,
    channel_values: JsonModel,
    metadata: MetadataModel,
    now: Timestamp,
    tenant_id: Option<Seq<char>>,
    user_id: Option<Seq<char>>,
)
    ensures
        ({
            let c = fresh_checkpoint(
                id,
                thread_id,
                parent_id,
                channel_values,
                metadata,
                now,
                tenant_id,
                user_id,
            );
            &&& c.id == id
            &&& c.thread_id == thread_id
            &&& c.parent_id == parent_id
            &&& c.channel_values == channel_values
            &&& c.metadata == metadata
            &&& c.created_at == now
            &&& c.tenant_id == tenant_id
            &&& c.user_id == user_id
        }),
{
}

/// Taking an answer away leaves the answers to other snapshots.
pub proof fn other_answers_are_left(resumes: Resumes, id: Seq<char>, other: Seq<char>)
    requires
        other != id,
    ensures
        json::field_of(without_answer(resumes, id), other) == json::field_of(resumes, other),
    decreases resumes.len(),
{
    reveal(Seq::filter);
    let left = without_answer(resumes, id);
    if resumes.len() > 0 {
        let front = resumes.drop_last();
        let before = without_answer(front, id);
        other_answers_are_left(front, id, other);
        json::key_from_bounds(resumes, other, 0);
        json::key_from_bounds(front, other, 0);
        json::key_from_bounds(left, other, 0);
        json::key_from_bounds(before, other, 0);
        let last = resumes.last();
        assert(forall|j: int| 0 <= j < front.len() ==> #[trigger] front[j] == resumes[j]);
        assert(forall|j: int| 0 <= j < front.len() ==> front[j] == #[trigger] resumes[j]);
        if last.0 != id {
            assert(left == before.push(last));
            assert(forall|j: int| 0 <= j < before.len() ==> #[trigger] before[j] == left[j]);
            assert(forall|j: int| 0 <= j < before.len() ==> before[j] == #[trigger] left[j]);
            match json::key_from(front, other, 0) {
                Some(k) => {
                    assert(resumes[k].0 == other);
                    let b = json::key_from(before, other, 0)->0;
                    assert(left[b].0 == other);
                },
                None => {
                    if last.0 == other {
                        assert(resumes[resumes.len() - 1].0 == other);
                        assert(left[left.len() - 1].0 == other);
                    }
                },
            }
        } else {
            assert(left == before);
            match json::key_from(front, other, 0) {
                Some(k) => {
                    assert(resumes[k].0 == other);
                },
                None => {},
            }
        }
    }
}

/// What waits to be taken up is the answer to the snapshot that is asked for.
pub proof fn the_answer_is_that_of_the_snapshot(
    stored: Seq<CheckpointModel>,
    resumes: Resumes,
    which: WhichModel,
)
    ensures
        resolved(thread_of(stored, which), which) is None ==> pending(stored, resumes, which)
            is None,
        resolved(thread_of(stored, which), which) matches Some(cp) ==> (json::field_of(
            resumes,
            cp.id,
        ) matches Some(v) ==> pending(stored, resumes, which) == Some((cp.id, v))),
        resolved(thread_of(stored, which), which) matches Some(cp) ==> (json::field_of(
            resumes,
            cp.id,
        ) is None ==> pending(stored, resumes, which) is None),
{
}

} // verus!

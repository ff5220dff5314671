//! Whose data is whose: the scopes of memory, sessions and checkpoints, and the
//! namespaces in which their data is stored.
use vstd::prelude::*;

use crate::llm::clone_opt;
use crate::text;
use crate::text::{chars_of, decimal_text, find_char};

verus! {

/// A scope, as texts.
pub type ScopeModel = (Option<Seq<char>>, Option<Seq<char>>);

/// No colon stands in a text.
pub open spec fn without_colon(s: Seq<char>) -> bool {
    forall|i: int| 0 <= i < s.len() ==> s[i] != ':'
}

/// Where the data of a scope is stored: a place of its own for each scope. The place of a
/// user of a tenant names both; where the name of the tenant holds a colon, its length
/// says where it ends.
pub open spec fn place_of(prefix: Seq<char>, scope: ScopeModel) -> Seq<char> {
    match scope {
        (Some(t), Some(u)) => if without_colon(t) {
            prefix + ":"@ + t + ":"@ + u
        } else {
            prefix + "-pair:"@ + text::decimal(t.len()) + ":"@ + t + ":"@ + u
        },
        (Some(t), None) => prefix + "-tenant:"@ + t,
        (None, Some(u)) => prefix + "-user:"@ + u,
        (None, None) => prefix + ":global"@,
    }
}

/// Where the data of a scope is stored.
pub fn scope_place(prefix: &str, tenant_id: &Option<String>, user_id: &Option<String>) -> (r:
    String)
    ensures
        r@ == place_of(prefix@, (tenant_id.deep_view(), user_id.deep_view())),
{
    let mut s = String::from_str(prefix);
    match (tenant_id, user_id) {
        (Some(t), Some(u)) => {
            let chars = chars_of(t.as_str());
            let colon = find_char(chars.as_slice(), ':');
            proof {
                text::find_from_is_first(t@, seq![':'], 0);
                if colon is None {
                    assert forall|i: int| 0 <= i < t@.len() implies t@[i] != ':' by {
                        assert(!text::occurs_at(t@, seq![':'], i));
                        assert(t@.subrange(i, i + 1) =~= seq![t@[i]]);
                    }
                }
            }
            if colon.is_none() {
                s.append(":");
            } else {
                s.append("-pair:");
                s.append(decimal_text(chars.len() as u64).as_str());
                s.append(":");
            }
            s.append(t.as_str());
            s.append(":");
            s.append(u.as_str());
        },
        (Some(t), None) => {
            s.append("-tenant:");
            s.append(t.as_str());
        },
        (None, Some(u)) => {
            s.append("-user:");
            s.append(u.as_str());
        },
        (None, None) => s.append(":global"),
    }
    s
}

/// The data of different scopes is stored in different places.
#[verifier::rlimit(50)]
pub proof fn scopes_are_stored_apart(prefix: Seq<char>, a: ScopeModel, b: ScopeModel)
    requires
        a != b,
    ensures
        place_of(prefix, a) != place_of(prefix, b),
{
    reveal_strlit(":");
    reveal_strlit("-pair:");
    reveal_strlit("-tenant:");
    reveal_strlit("-user:");
    reveal_strlit(":global");
    let n = prefix.len() as int;
    let pa = place_of(prefix, a);
    let pb = place_of(prefix, b);
    if pa == pb {
        match (a, b) {
            ((Some(t), Some(u)), (Some(t2), Some(u2))) => {
                if without_colon(t) && without_colon(t2) {
                    assert(pa.skip(n + 1) =~= t + ":"@ + u);
                    assert(pb.skip(n + 1) =~= t2 + ":"@ + u2);
                    split_is_unique(t, u, t2, u2);
                } else if without_colon(t) {
                    assert(pa[n] == ':' && pb[n] == '-');
                } else if without_colon(t2) {
                    assert(pa[n] == '-' && pb[n] == ':');
                } else {
                    let d = text::decimal(t.len());
                    let d2 = text::decimal(t2.len());
                    let r = t + ":"@ + u;
                    let r2 = t2 + ":"@ + u2;
                    assert(pa.skip(n + 6) =~= d + ":"@ + r);
                    assert(pb.skip(n + 6) =~= d2 + ":"@ + r2);
                    decimal_has_no_colon(t.len());
                    decimal_has_no_colon(t2.len());
                    split_is_unique(d, r, d2, r2);
                    text::decimals_differ(t.len(), t2.len());
                    assert(r.take(t.len() as int) =~= t);
                    assert(r2.take(t.len() as int) =~= t2);
                    assert(r.skip(t.len() as int + 1) =~= u);
                    assert(r2.skip(t.len() as int + 1) =~= u2);
                }
            },
            ((Some(t), Some(u)), (None, None)) => {
                assert(pa[n] == ':' ==> pa[n + 1 + t.len()] == ':');
                assert(pb.skip(n) =~= ":global"@);
                assert(pb[n + 1 + t.len()] == ":global"@[1 + t.len() as int]);
            },
            ((None, None), (Some(t), Some(u))) => {
                assert(pb[n] == ':' ==> pb[n + 1 + t.len()] == ':');
                assert(pa.skip(n) =~= ":global"@);
                assert(pa[n + 1 + t.len()] == ":global"@[1 + t.len() as int]);
            },
            ((Some(t), None), (Some(t2), None)) => {
                assert(pa.skip(n + 8) =~= t);
                assert(pb.skip(n + 8) =~= t2);
            },
            ((None, Some(u)), (None, Some(u2))) => {
                assert(pa.skip(n + 6) =~= u);
                assert(pb.skip(n + 6) =~= u2);
            },
            _ => {
                assert(pa[n] == pb[n] && pa[n + 1] == pb[n + 1]);
            },
        }
    }
}

/// No colon stands in a number.
proof fn decimal_has_no_colon(n: nat)
    ensures
        without_colon(text::decimal(n)),
    decreases n,
{
    if n >= 10 {
        decimal_has_no_colon(n / 10);
    }
}

/// The namespace of the memory of a scope: the prefix and the identifiers that there are,
/// or the word for all where there are none.
pub open spec fn namespace_of(prefix: Seq<char>, scope: ScopeModel) -> Seq<char> {
    match scope {
        (Some(t), Some(u)) => prefix + ":"@ + t + ":"@ + u,
        (Some(t), None) => prefix + ":"@ + t,
        (None, Some(u)) => prefix + ":"@ + u,
        (None, None) => prefix + ":"@ + "global"@,
    }
}

/// The namespace of the memory of a scope.
fn scope_namespace(
    prefix: &str,
    tenant_id: &Option<String>,
    user_id: &Option<String>,
) -> (r: String)
    ensures
        r@ == namespace_of(prefix@, (tenant_id.deep_view(), user_id.deep_view())),
{
    let mut s = String::from_str(prefix);
    s.append(":");
    match (tenant_id, user_id) {
        (Some(t), Some(u)) => {
            s.append(t.as_str());
            s.append(":");
            s.append(u.as_str());
        },
        (Some(t), None) => s.append(t.as_str()),
        (None, Some(u)) => s.append(u.as_str()),
        (None, None) => s.append("global"),
    }
    s
}

/// The scope of memory: a tenant, a user, both or neither.
#[derive(Debug, PartialEq, Eq, Hash)]
pub struct MemoryScope {
    pub tenant_id: Option<String>,
    pub user_id: Option<String>,
}

impl View for MemoryScope {
    type V = ScopeModel;

    open spec fn view(&self) -> ScopeModel {
        (self.tenant_id.deep_view(), self.user_id.deep_view())
    }
}

impl DeepView for MemoryScope {
    type V = ScopeModel;

    open spec fn deep_view(&self) -> ScopeModel {
        self@
    }
}

impl Clone for MemoryScope {
    fn clone(&self) -> (r: Self)
        ensures
            r == *self,
            r@ == self@,
    {
        MemoryScope { tenant_id: clone_opt(&self.tenant_id), user_id: clone_opt(&self.user_id) }
    }
}

impl Default for MemoryScope {
    fn default() -> (r: Self)
        ensures
            r@ == (None::<Seq<char>>, None::<Seq<char>>),
    {
        MemoryScope { tenant_id: None, user_id: None }
    }
}

impl MemoryScope {
    /// The scope of these identifiers.
    pub fn new(tenant_id: Option<String>, user_id: Option<String>) -> (r: Self)
        ensures
            r.tenant_id == tenant_id,
            r.user_id == user_id,
    {
        MemoryScope { tenant_id, user_id }
    }

    /// The scope of a user.
    pub fn user(user_id: String) -> (r: Self)
        ensures
            r.tenant_id is None,
            r.user_id == Some(user_id),
    {
        MemoryScope { tenant_id: None, user_id: Some(user_id) }
    }

    /// The scope of a tenant.
    pub fn tenant(tenant_id: String) -> (r: Self)
        ensures
            r.tenant_id == Some(tenant_id),
            r.user_id is None,
    {
        MemoryScope { tenant_id: Some(tenant_id), user_id: None }
    }

    /// The scope of a user of a tenant.
    pub fn tenant_user(tenant_id: String, user_id: String) -> (r: Self)
        ensures
            r.tenant_id == Some(tenant_id),
            r.user_id == Some(user_id),
    {
        MemoryScope { tenant_id: Some(tenant_id), user_id: Some(user_id) }
    }

    /// The namespace in which the memory of the scope is stored.
    pub fn namespace(&self) -> (r: String)
        ensures
            r@ == namespace_of("memory"@, self@),
    {
        scope_namespace("memory", &self.tenant_id, &self.user_id)
    }
}

/// A copy of an optional scope.
pub fn clone_scope(s: &Option<MemoryScope>) -> (r: Option<MemoryScope>)
    ensures
        r == *s,
        r.deep_view() == s.deep_view(),
{
    match s {
        Some(x) => Some(x.clone()),
        None => None,
    }
}

/// A scope names both a tenant and a user.
pub open spec fn is_pair(scope: ScopeModel) -> bool {
    scope.0 is Some && scope.1 is Some
}

/// A scope is all, and the other names one that is called like the word for all.
pub open spec fn is_all_for_global(a: ScopeModel, b: ScopeModel) -> bool {
    a.0 is None && a.1 is None && !is_pair(b) && rest_of(b) == "global"@
}

/// One scope is of a tenant and the other of a user of the same name.
pub open spec fn is_tenant_for_user(a: ScopeModel, b: ScopeModel) -> bool {
    a.0 is Some && a.1 is None && b.0 is None && b.1 == a.0
}

/// The part of a namespace behind its prefix.
pub open spec fn rest_of(scope: ScopeModel) -> Seq<char> {
    match scope {
        (Some(t), Some(u)) => t + ":"@ + u,
        (Some(t), None) => t,
        (None, Some(u)) => u,
        (None, None) => "global"@,
    }
}

/// Different scopes have different namespaces. Three pairs of scopes are left out: a
/// tenant and a user of the same name; all, and one that is called like the word for
/// all; and scopes of which one names both a tenant and a user, where the colon between
/// the two could be taken for part of a name.
pub proof fn namespaces_are_separate(prefix: Seq<char>, a: ScopeModel, b: ScopeModel)
    requires
        a != b,
        !is_tenant_for_user(a, b),
        !is_tenant_for_user(b, a),
        !is_all_for_global(a, b),
        !is_all_for_global(b, a),
        is_pair(a) && is_pair(b) ==> without_colon(a.0->0) && without_colon(b.0->0),
        is_pair(a) && !is_pair(b) ==> without_colon(rest_of(b)),
        is_pair(b) && !is_pair(a) ==> without_colon(rest_of(a)),
    ensures
        namespace_of(prefix, a) != namespace_of(prefix, b),
{
    reveal_strlit(":");
    let na = namespace_of(prefix, a);
    let nb = namespace_of(prefix, b);
    if na == nb {
        let sa = rest_of(a);
        let sb = rest_of(b);
        assert(na.skip(prefix.len() as int + 1) =~= sa);
        assert(nb.skip(prefix.len() as int + 1) =~= sb);
        match (a, b) {
            ((Some(t), Some(u)), (Some(t2), Some(u2))) => {
                split_is_unique(t, u, t2, u2);
            },
            ((Some(t), Some(u)), _) => {
                assert(sa[t.len() as int] == ':');
                assert(sb[t.len() as int] == ':');
            },
            (_, (Some(t), Some(u))) => {
                assert(sb[t.len() as int] == ':');
                assert(sa[t.len() as int] == ':');
            },
            _ => {},
        }
    }
}

/// Two identifiers can be told apart at the colon between them.
proof fn split_is_unique(t: Seq<char>, u: Seq<char>, t2: Seq<char>, u2: Seq<char>)
    requires
        without_colon(t),
        without_colon(t2),
        t + ":"@ + u == t2 + ":"@ + u2,
    ensures
        t == t2,
        u == u2,
{
    reveal_strlit(":");
    let a = t + ":"@ + u;
    let b = t2 + ":"@ + u2;
    assert(a[t.len() as int] == ':');
    assert(b[t2.len() as int] == ':');
    if t.len() < t2.len() {
        assert(b[t.len() as int] == t2[t.len() as int]);
    }
    if t2.len() < t.len() {
        assert(a[t2.len() as int] == t[t2.len() as int]);
    }
    assert(a.take(t.len() as int) =~= t);
    assert(b.take(t.len() as int) =~= t2);
    assert(a.skip(t.len() as int + 1) =~= u);
    assert(b.skip(t.len() as int + 1) =~= u2);
}

/// Where things are kept names whose they are: under a tenant, a user or both, or for all
/// where neither is named.
pub proof fn a_place_names_its_owner(prefix: Seq<char>, t: Seq<char>, u: Seq<char>)
    ensures
        text::ends_with(place_of(prefix, (Some(t), Some(u))), t + ":"@ + u),
        text::ends_with(place_of(prefix, (Some(t), None)), t),
        text::ends_with(place_of(prefix, (None, Some(u))), u),
        text::starts_with(place_of(prefix, (Some(t), Some(u))), prefix),
        text::starts_with(place_of(prefix, (Some(t), None)), prefix),
        text::starts_with(place_of(prefix, (None, Some(u))), prefix),
        place_of(prefix, (None, None)) == prefix + ":global"@,
        namespace_of(prefix, (Some(t), Some(u))) == prefix + ":"@ + t + ":"@ + u,
        namespace_of(prefix, (Some(t), None)) == prefix + ":"@ + t,
        namespace_of(prefix, (None, Some(u))) == prefix + ":"@ + u,
        namespace_of(prefix, (None, None)) == prefix + ":global"@,
{
    let both = place_of(prefix, (Some(t), Some(u)));
    let pair = t + ":"@ + u;
    assert(both.subrange(both.len() - pair.len(), both.len() as int) =~= pair);
    assert(both.subrange(0, prefix.len() as int) =~= prefix);
    let tenant = place_of(prefix, (Some(t), None));
    assert(tenant.subrange(tenant.len() - t.len(), tenant.len() as int) =~= t);
    assert(tenant.subrange(0, prefix.len() as int) =~= prefix);
    let user = place_of(prefix, (None, Some(u)));
    assert(user.subrange(user.len() - u.len(), user.len() as int) =~= u);
    assert(user.subrange(0, prefix.len() as int) =~= prefix);
    reveal_strlit(":");
    reveal_strlit("global");
    reveal_strlit(":global");
    assert(":"@ + "global"@ =~= ":global"@);
    assert(prefix + ":"@ + "global"@ =~= prefix + (":"@ + "global"@));
}

} // verus!

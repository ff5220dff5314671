//! Conversations as they are stored, each in the scope of a tenant and a user.
use vstd::prelude::*;

use crate::llm::{clone_messages, clone_opt, ChatMessage, MessageModel, Role};
use crate::order;
use crate::scope;
use crate::scope::{scope_place, MemoryScope, ScopeModel};
use crate::text;
use crate::text::{
    chars_of, chars_start_with, cut, same_text, string_of, take_text, trim_chars, trim_text,
};

verus! {

broadcast use crate::seqs::group_views;

/// How a message begins that gives a conversation its title.
pub const TITLE_TAG: &'static str = "[session-title] ";

/// The title of a conversation that has no other.
pub const DEFAULT_TITLE: &'static str = "新会话";

/// How many characters of a message make a title.
pub const TITLE_LENGTH: usize = 50;

/// A conversation as it is stored.
#[derive(Debug, PartialEq, Eq)]
pub struct SessionRecord {
    pub title: String,
    pub messages: Vec<ChatMessage>,
    /// When it was stored, in seconds.
    pub updated_at: u64,
    pub tenant_id: Option<String>,
    pub user_id: Option<String>,
}

/// A conversation as it is stored.
#[verifier::ext_equal]
pub struct RecordModel {
    pub title: Seq<char>,
    pub messages: Seq<MessageModel>,
    pub updated_at: u64,
    pub tenant_id: Option<Seq<char>>,
    pub user_id: Option<Seq<char>>,
}

impl View for SessionRecord {
    type V = RecordModel;

    open spec fn view(&self) -> RecordModel {
        RecordModel {
            title: self.title@,
            messages: self.messages.deep_view(),
            updated_at: self.updated_at,
            tenant_id: self.tenant_id.deep_view(),
            user_id: self.user_id.deep_view(),
        }
    }
}

impl Clone for SessionRecord {
    fn clone(&self) -> (r: Self)
        ensures
            r@ == self@,
    {
        SessionRecord {
            title: self.title.clone(),
            messages: clone_messages(self.messages.as_slice()),
            updated_at: self.updated_at,
            tenant_id: clone_opt(&self.tenant_id),
            user_id: clone_opt(&self.user_id),
        }
    }
}

/// A conversation as it is listed.
#[derive(Debug, PartialEq, Eq)]
pub struct SessionSummary {
    pub session_id: String,
    pub title: String,
    pub message_count: usize,
    pub updated_at: u64,
}

/// A conversation as it is listed.
#[verifier::ext_equal]
pub struct SummaryModel {
    pub session_id: Seq<char>,
    pub title: Seq<char>,
    pub message_count: nat,
    pub updated_at: u64,
}

impl View for SessionSummary {
    type V = SummaryModel;

    open spec fn view(&self) -> SummaryModel {
        SummaryModel {
            session_id: self.session_id@,
            title: self.title@,
            message_count: self.message_count as nat,
            updated_at: self.updated_at,
        }
    }
}

impl DeepView for SessionSummary {
    type V = SummaryModel;

    open spec fn deep_view(&self) -> SummaryModel {
        self@
    }
}

// ---------- titles ----------

/// The title that a message gives.
pub open spec fn given_title(m: MessageModel) -> Option<Seq<char>> {
    match m.content {
        Some(c) => if m.role == Role::System && text::starts_with(c, TITLE_TAG@) {
            Some(text::trim(c.skip(TITLE_TAG@.len() as int)))
        } else {
            None
        },
        None => None,
    }
}

/// The title that is made of a message: its beginning, with a sign where it goes on.
pub open spec fn made_title(m: MessageModel) -> Option<Seq<char>> {
    match m.content {
        Some(c) => {
            let t = text::trim(c);
            if m.role == Role::User && t.len() > 0 {
                Some(
                    if t.len() > TITLE_LENGTH {
                        text::first_chars(t, TITLE_LENGTH as int) + "…"@
                    } else {
                        t
                    },
                )
            } else {
                None
            }
        },
        None => None,
    }
}

/// The first title that the messages from `i` on give.
pub open spec fn given_from(msgs: Seq<MessageModel>, i: int) -> Option<Seq<char>>
    decreases msgs.len() - i,
{
    if i < 0 || i >= msgs.len() {
        None
    } else if given_title(msgs[i]) is Some {
        given_title(msgs[i])
    } else {
        given_from(msgs, i + 1)
    }
}

/// The first title that is made of the messages from `i` on.
pub open spec fn made_from(msgs: Seq<MessageModel>, i: int) -> Option<Seq<char>>
    decreases msgs.len() - i,
{
    if i < 0 || i >= msgs.len() {
        None
    } else if made_title(msgs[i]) is Some {
        made_title(msgs[i])
    } else {
        made_from(msgs, i + 1)
    }
}

/// The title of a conversation: the first that a message gives, else the beginning of the
/// first message of the user that says something.
pub open spec fn title_of(msgs: Seq<MessageModel>) -> Seq<char> {
    match given_from(msgs, 0) {
        Some(t) => t,
        None => match made_from(msgs, 0) {
            Some(t) => t,
            None => DEFAULT_TITLE@,
        },
    }
}

/// The title that a message gives.
fn read_given(m: &ChatMessage) -> (r: Option<String>)
    ensures
        r.deep_view() == given_title(m@),
{
    if m.role != Role::System {
        return None;
    }
    match &m.content {
        None => None,
        Some(c) => {
            let chars = chars_of(c.as_str());
            let tag = chars_of(TITLE_TAG);
            if !chars_start_with(chars.as_slice(), tag.as_slice()) {
                return None;
            }
            let rest = cut(chars.as_slice(), tag.len(), chars.len());
            assert(rest@ =~= c@.skip(TITLE_TAG@.len() as int));
            let title = trim_chars(rest.as_slice());
            Some(string_of(title.as_slice()))
        },
    }
}

/// The title that is made of a message.
fn read_made(m: &ChatMessage) -> (r: Option<String>)
    ensures
        r.deep_view() == made_title(m@),
{
    if m.role != Role::User {
        return None;
    }
    match &m.content {
        None => None,
        Some(c) => {
            let t = trim_text(c.as_str());
            let n: usize = t.as_str().unicode_len();
            if n == 0 {
                return None;
            }
            if n > TITLE_LENGTH {
                let mut title = take_text(t.as_str(), TITLE_LENGTH);
                title.append("…");
                Some(title)
            } else {
                Some(t)
            }
        },
    }
}

/// The title of a conversation.
pub fn derive_title(messages: &[ChatMessage]) -> (r: String)
    ensures
        r@ == title_of(messages.deep_view()),
{
    let ghost all = messages.deep_view();
    let mut i: usize = 0;
    while i < messages.len()
        invariant
            i <= messages@.len(),
            all == messages.deep_view(),
            given_from(all, 0) == given_from(all, i as int),
        decreases messages@.len() - i,
    {
        if let Some(t) = read_given(&messages[i]) {
            return t;
        }
        i += 1;
    }
    let mut k: usize = 0;
    while k < messages.len()
        invariant
            k <= messages@.len(),
            all == messages.deep_view(),
            given_from(all, 0) is None,
            made_from(all, 0) == made_from(all, k as int),
        decreases messages@.len() - k,
    {
        if let Some(t) = read_made(&messages[k]) {
            return t;
        }
        k += 1;
    }
    String::from_str(DEFAULT_TITLE)
}

/// The message that gives a conversation a title.
pub open spec fn title_message(title: Seq<char>) -> MessageModel {
    crate::llm::plain_message(Role::System, TITLE_TAG@ + text::trim(title))
}

/// The message that gives a conversation a title.
pub fn make_title_message(title: &str) -> (r: ChatMessage)
    ensures
        r@ == title_message(title@),
{
    let mut s = String::from_str(TITLE_TAG);
    s.append(trim_text(title).as_str());
    ChatMessage::system(s)
}

// ---------- scopes ----------

/// The conversation is of the tenant and user of the scope; of none where it names none.
pub open spec fn in_scope(r: RecordModel, s: ScopeModel) -> bool {
    match s {
        (Some(t), Some(u)) => r.tenant_id == Some(t) && r.user_id == Some(u),
        (Some(t), None) => r.tenant_id == Some(t),
        (None, Some(u)) => r.user_id == Some(u),
        (None, None) => r.tenant_id is None && r.user_id is None,
    }
}

/// The text is that of the other.
fn is_text(a: &Option<String>, b: &str) -> (r: bool)
    ensures
        r == (a.deep_view() == Some(b@)),
{
    match a {
        Some(s) => same_text(s.as_str(), b),
        None => false,
    }
}

/// Whether the conversation is of the tenant and user of the scope.
pub fn belongs_to_scope(record: &SessionRecord, scope: &MemoryScope) -> (r: bool)
    ensures
        r == in_scope(record@, scope@),
{
    match (&scope.tenant_id, &scope.user_id) {
        (Some(t), Some(u)) => is_text(&record.tenant_id, t.as_str()) && is_text(
            &record.user_id,
            u.as_str(),
        ),
        (Some(t), None) => is_text(&record.tenant_id, t.as_str()),
        (None, Some(u)) => is_text(&record.user_id, u.as_str()),
        (None, None) => record.tenant_id.is_none() && record.user_id.is_none(),
    }
}

/// Where the conversations of a scope are stored.
pub fn session_namespace(scope: &MemoryScope) -> (r: String)
    ensures
        r@ == scope::place_of("session"@, scope@),
{
    scope_place("session", &scope.tenant_id, &scope.user_id)
}

/// The messages that are read from a scope, of what is stored under a name.
pub open spec fn read_messages(r: RecordModel, s: ScopeModel) -> Option<Seq<MessageModel>> {
    if in_scope(r, s) {
        Some(r.messages)
    } else {
        None
    }
}

/// The messages of a conversation, where it is of the scope.
pub fn load_messages(record: &SessionRecord, scope: &MemoryScope) -> (r: Option<Vec<ChatMessage>>)
    ensures
        r.deep_view() == read_messages(record@, scope@),
{
    if belongs_to_scope(record, scope) {
        Some(clone_messages(record.messages.as_slice()))
    } else {
        None
    }
}

/// A conversation as it is stored in a scope.
pub open spec fn written(
    s: ScopeModel,
    msgs: Seq<MessageModel>,
    now_secs: u64,
) -> RecordModel {
    RecordModel {
        title: title_of(msgs),
        messages: msgs,
        updated_at: now_secs,
        tenant_id: s.0,
        user_id: s.1,
    }
}

/// A conversation as it is stored in a scope.
pub fn make_record(scope: &MemoryScope, messages: &[ChatMessage], now_secs: u64) -> (r:
    SessionRecord)
    ensures
        r@ == written(scope@, messages.deep_view(), now_secs),
{
    SessionRecord {
        title: derive_title(messages),
        messages: clone_messages(messages),
        updated_at: now_secs,
        tenant_id: clone_opt(&scope.tenant_id),
        user_id: clone_opt(&scope.user_id),
    }
}

// ---------- listing ----------

/// The names and contents of what is stored.
pub open spec fn stored_sessions(v: Seq<(String, SessionRecord)>) -> Seq<
    (Seq<char>, RecordModel),
> {
    Seq::new(v.len(), |i: int| (v[i].0@, v[i].1@))
}

/// The conversations of a scope, as they are listed.
pub open spec fn summaries(
    stored: Seq<(Seq<char>, RecordModel)>,
    s: ScopeModel,
) -> Seq<SummaryModel>
    decreases stored.len(),
{
    if stored.len() == 0 {
        Seq::empty()
    } else {
        let rest = summaries(stored.drop_last(), s);
        let (id, r) = stored.last();
        if in_scope(r, s) {
            rest.push(
                SummaryModel {
                    session_id: id,
                    title: r.title,
                    message_count: r.messages.len(),
                    updated_at: r.updated_at,
                },
            )
        } else {
            rest
        }
    }
}

/// The newest first.
pub open spec fn newest_key() -> spec_fn(SummaryModel) -> int {
    |m: SummaryModel| -(m.updated_at as int)
}

/// The conversations of a scope, the newest first.
pub open spec fn session_list(
    stored: Seq<(Seq<char>, RecordModel)>,
    s: ScopeModel,
) -> Seq<SummaryModel> {
    order::ordered(summaries(stored, s), newest_key())
}

/// Adds a summary behind those that are not older.
fn insert_summary(list: &mut Vec<SessionSummary>, x: SessionSummary)
    requires
        order::goes_up(old(list).deep_view(), newest_key()),
    ensures
        final(list).deep_view() == old(list).deep_view().insert(
            order::place(old(list).deep_view(), newest_key(), x@),
            x@,
        ),
{
    let ghost key = newest_key();
    let ghost sorted = list.deep_view();
    let mut k: usize = list.len();
    proof {
        order::place_bounds(sorted, key, x@);
        assert(sorted.take(k as int) =~= sorted);
    }
    while k > 0 && list[k - 1].updated_at < x.updated_at
        invariant
            k <= list@.len(),
            sorted == list.deep_view(),
            key == newest_key(),
            order::place(sorted, key, x@) == order::place(sorted.take(k as int), key, x@),
        decreases k,
    {
        assert(sorted.take(k as int).drop_last() =~= sorted.take(k - 1));
        assert(sorted.take(k as int).last() == sorted[k - 1]);
        k = k - 1;
    }
    proof {
        if k > 0 {
            assert(sorted.take(k as int).last() == sorted[k - 1]);
        }
        assert(order::place(sorted, key, x@) == k);
    }
    list.insert(k, x);
    assert(list.deep_view() =~= sorted.insert(k as int, x@));
}

/// The conversations of a scope, the newest first.
pub fn list_sessions(stored: &[(String, SessionRecord)], scope: &MemoryScope) -> (r: Vec<
    SessionSummary,
>)
    ensures
        r.deep_view() == session_list(stored_sessions(stored@), scope@),
{
    let ghost all = stored_sessions(stored@);
    let ghost s = scope@;
    let ghost key = newest_key();
    let mut out: Vec<SessionSummary> = Vec::new();
    let mut i: usize = 0;
    assert(all.take(0) =~= Seq::<(Seq<char>, RecordModel)>::empty());
    while i < stored.len()
        invariant
            i <= stored@.len(),
            all == stored_sessions(stored@),
            s == scope@,
            key == newest_key(),
            out.deep_view() == order::ordered(summaries(all.take(i as int), s), key),
        decreases stored@.len() - i,
    {
        proof {
            assert(all.take(i + 1).drop_last() =~= all.take(i as int));
            assert(all.take(i + 1).last() == (stored@[i as int].0@, stored@[i as int].1@));
            order::order_holds(summaries(all.take(i as int), s), key);
        }
        if belongs_to_scope(&stored[i].1, scope) {
            let x = SessionSummary {
                session_id: stored[i].0.clone(),
                title: stored[i].1.title.clone(),
                message_count: stored[i].1.messages.len(),
                updated_at: stored[i].1.updated_at,
            };
            proof {
                let next = summaries(all.take(i + 1), s);
                assert(next.last() =~= x@);
                assert(next.drop_last() =~= summaries(all.take(i as int), s));
            }
            insert_summary(&mut out, x);
        }
        i += 1;
    }
    assert(all.take(i as int) =~= all);
    out
}

// ---------- laws ----------

/// A conversation is read back from the scope in which it was stored.
pub proof fn a_session_is_read_back(s: ScopeModel, msgs: Seq<MessageModel>, now_secs: u64)
    ensures
        read_messages(written(s, msgs, now_secs), s) == Some(msgs),
{
}

/// The conversations of different tenants and users are stored in different places.
pub proof fn sessions_are_kept_apart(s: ScopeModel, other: ScopeModel)
    requires
        s != other,
    ensures
        scope::place_of("session"@, s) != scope::place_of("session"@, other),
{
    scope::scopes_are_stored_apart("session"@, s, other);
}

/// A title that a conversation is given at its beginning is its title.
pub proof fn a_given_title_is_the_title(title: Seq<char>, msgs: Seq<MessageModel>)
    ensures
        title_of(seq![title_message(title)] + msgs) == text::trim(title),
{
    let all = seq![title_message(title)] + msgs;
    let m = all[0];
    let c = TITLE_TAG@ + text::trim(title);
    assert(m == title_message(title));
    assert(text::starts_with(c, TITLE_TAG@)) by {
        assert(c.subrange(0, TITLE_TAG@.len() as int) =~= TITLE_TAG@);
    }
    assert(c.skip(TITLE_TAG@.len() as int) =~= text::trim(title));
    assert(given_from(all, 0) == given_title(m));
    text::trimming_is_done_once(title);
}

/// The title that a message makes is what the user says, without the space around it, cut
/// behind fifty characters; other messages make none.
pub proof fn the_words_of_the_user_make_a_title(m: MessageModel)
    ensures
        m.role != Role::User ==> made_title(m) is None,
        m.role == Role::User ==> (m.content matches Some(c) ==> {
            let t = text::trim(c);
            &&& t.len() == 0 ==> made_title(m) is None
            &&& 0 < t.len() <= 50 ==> made_title(m) == Some(t)
            &&& t.len() > 50 ==> (made_title(m) matches Some(s) && s.len() > 50 && s.take(50)
                == t.take(50))
        }),
{
    if m.role == Role::User {
        if let Some(c) = m.content {
            let t = text::trim(c);
            if t.len() > 50 {
                reveal_strlit("…");
                let s = made_title(m)->0;
                assert(s.take(50) =~= t.take(50));
            }
        }
    }
}

/// No title is given where no message gives one.
proof fn none_is_given(msgs: Seq<MessageModel>, i: int)
    requires
        0 <= i,
        forall|j: int| i <= j < msgs.len() ==> given_title(#[trigger] msgs[j]) is None,
    ensures
        given_from(msgs, i) is None,
    decreases msgs.len() - i,
{
    if i < msgs.len() {
        none_is_given(msgs, i + 1);
    }
}

/// The first message that makes a title makes the title.
proof fn the_first_is_made(msgs: Seq<MessageModel>, i: int, k: int)
    requires
        0 <= i <= k <= msgs.len(),
        k < msgs.len() ==> made_title(msgs[k]) is Some,
        forall|j: int| i <= j < k ==> made_title(#[trigger] msgs[j]) is None,
    ensures
        k < msgs.len() ==> made_from(msgs, i) == made_title(msgs[k]),
        k == msgs.len() ==> made_from(msgs, i) is None,
    decreases k - i,
{
    if i < k {
        the_first_is_made(msgs, i + 1, k);
    }
}

/// A conversation without a given title is called after the first words of the user, and has
/// the title of a new one where the user has said nothing.
pub proof fn a_title_is_made_of_the_first_words(msgs: Seq<MessageModel>, k: int)
    requires
        0 <= k <= msgs.len(),
        forall|j: int| 0 <= j < msgs.len() ==> given_title(#[trigger] msgs[j]) is None,
        k < msgs.len() ==> msgs[k].role == Role::User && text::trim(msgs[k].text()).len() > 0
            && msgs[k].content is Some,
        forall|j: int|
            0 <= j < k ==> (#[trigger] msgs[j]).role != Role::User || text::trim(
                msgs[j].text(),
            ).len() == 0,
    ensures
        k < msgs.len() && text::trim(msgs[k].text()).len() <= 50 ==> title_of(msgs) == text::trim(
            msgs[k].text(),
        ),
        k < msgs.len() && text::trim(msgs[k].text()).len() > 50 ==> title_of(msgs).take(50)
            == text::trim(msgs[k].text()).take(50),
        k == msgs.len() ==> title_of(msgs) == "新会话"@,
{
    none_is_given(msgs, 0);
    assert forall|j: int| 0 <= j < k implies made_title(#[trigger] msgs[j]) is None by {}
    the_first_is_made(msgs, 0, k);
    if k < msgs.len() {
        the_words_of_the_user_make_a_title(msgs[k]);
    }
}

/// A conversation is read only by those whom it belongs to: the tenant and the user that are
/// named, and those who name none where it belongs to nobody.
pub proof fn who_reads_a_conversation(r: RecordModel, s: ScopeModel)
    ensures
        ({
            let mine = (s.0 is Some ==> r.tenant_id == s.0) && (s.1 is Some ==> r.user_id == s.1)
                && (s.0 is None && s.1 is None ==> r.tenant_id is None && r.user_id is None);
            &&& mine ==> read_messages(r, s) == Some(r.messages)
            &&& !mine ==> read_messages(r, s) is None
        }),
{
}

/// A conversation is written with all that was said, its title, its owner and the moment.
pub proof fn a_conversation_is_written_whole(s: ScopeModel, msgs: Seq<MessageModel>, now: u64)
    ensures
        ({
            let r = written(s, msgs, now);
            &&& r.messages == msgs
            &&& r.title == title_of(msgs)
            &&& r.updated_at == now
            &&& r.tenant_id == s.0
            &&& r.user_id == s.1
        }),
{
}

/// The summaries are those of the conversations in the scope.
proof fn summaries_are_of_the_scope(
    stored: Seq<(Seq<char>, RecordModel)>,
    s: ScopeModel,
    m: SummaryModel,
)
    ensures
        summaries(stored, s).contains(m) == exists|k: int|
            {
                &&& 0 <= k < stored.len()
                &&& in_scope((#[trigger] stored[k]).1, s)
                &&& m.session_id == stored[k].0
                &&& m.title == stored[k].1.title
                &&& m.message_count == stored[k].1.messages.len()
                &&& m.updated_at == stored[k].1.updated_at
            },
    decreases stored.len(),
{
    if stored.len() > 0 {
        let front = stored.drop_last();
        let rest = summaries(front, s);
        let all = summaries(stored, s);
        summaries_are_of_the_scope(front, s, m);
        if all.contains(m) {
            let i = choose|i: int| 0 <= i < all.len() && all[i] == m;
            if i < rest.len() {
                assert(rest[i] == m);
                let k = choose|k: int|
                    {
                        &&& 0 <= k < front.len()
                        &&& in_scope((#[trigger] front[k]).1, s)
                        &&& m.session_id == front[k].0
                        &&& m.title == front[k].1.title
                        &&& m.message_count == front[k].1.messages.len()
                        &&& m.updated_at == front[k].1.updated_at
                    };
                assert(stored[k] == front[k]);
            } else {
                assert(in_scope(stored[stored.len() - 1].1, s));
            }
        }
        if exists|k: int|
            {
                &&& 0 <= k < stored.len()
                &&& in_scope((#[trigger] stored[k]).1, s)
                &&& m.session_id == stored[k].0
                &&& m.title == stored[k].1.title
                &&& m.message_count == stored[k].1.messages.len()
                &&& m.updated_at == stored[k].1.updated_at
            } {
            let k = choose|k: int|
                {
                    &&& 0 <= k < stored.len()
                    &&& in_scope((#[trigger] stored[k]).1, s)
                    &&& m.session_id == stored[k].0
                    &&& m.title == stored[k].1.title
                    &&& m.message_count == stored[k].1.messages.len()
                    &&& m.updated_at == stored[k].1.updated_at
                };
            if k < front.len() {
                assert(front[k] == stored[k]);
                let i = choose|i: int| 0 <= i < rest.len() && rest[i] == m;
                assert(all[i] == m);
            } else {
                assert(all[all.len() - 1] == m);
            }
        }
    }
}

/// All conversations of a scope are listed, each with its identifier, its title, the number
/// of its messages and when it was last written, and those of no other; the one that was
/// written last comes first.
pub proof fn all_conversations_of_a_scope_are_listed(
    stored: Seq<(Seq<char>, RecordModel)>,
    s: ScopeModel,
    m: SummaryModel,
    i: int,
    j: int,
)
    ensures
        session_list(stored, s).contains(m) == exists|k: int|
            {
                &&& 0 <= k < stored.len()
                &&& in_scope((#[trigger] stored[k]).1, s)
                &&& m.session_id == stored[k].0
                &&& m.title == stored[k].1.title
                &&& m.message_count == stored[k].1.messages.len()
                &&& m.updated_at == stored[k].1.updated_at
            },
        0 <= i < j < session_list(stored, s).len() ==> session_list(stored, s)[i].updated_at
            >= session_list(stored, s)[j].updated_at,
{
    broadcast use vstd::seq_lib::group_to_multiset_ensures;

    let all = summaries(stored, s);
    let list = session_list(stored, s);
    order::order_holds(all, newest_key());
    assert(list.contains(m) == list.to_multiset().contains(m));
    assert(all.contains(m) == all.to_multiset().contains(m));
    summaries_are_of_the_scope(stored, s, m);
    if 0 <= i < j < list.len() {
        assert(newest_key()(list[i]) <= newest_key()(list[j]));
    }
}

} // verus!

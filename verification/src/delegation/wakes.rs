//! Waking the sessions whose results have come in.
use vstd::prelude::*;

use crate::context::tool_pruning::among;
use crate::delegation::registry::CompletionNotification;

verus! {

broadcast use crate::seqs::group_views;

/// The sessions that are to be woken when the current window ends, each once.
#[derive(Debug, PartialEq, Eq)]
pub struct PendingWakes {
    sessions: Vec<String>,
}

impl View for PendingWakes {
    type V = Seq<Seq<char>>;

    closed spec fn view(&self) -> Seq<Seq<char>> {
        self.sessions.deep_view()
    }
}

/// The sessions with one more; one that is there already is not added again.
pub open spec fn noted(sessions: Seq<Seq<char>>, session: Seq<char>) -> Seq<Seq<char>> {
    if sessions.contains(session) {
        sessions
    } else {
        sessions.push(session)
    }
}

impl PendingWakes {
    /// No session is to be woken.
    pub fn new() -> (r: Self)
        ensures
            r@ == Seq::<Seq<char>>::empty(),
    {
        PendingWakes { sessions: Vec::new() }
    }

    /// Notes that a result of the session has come in.
    pub fn note(&mut self, n: &CompletionNotification)
        ensures
            final(self)@ == noted(old(self)@, n.session_id@),
    {
        if !among(self.sessions.as_slice(), n.session_id.as_str()) {
            self.sessions.push(n.session_id.clone());
        }
    }

    /// Ends the window: the sessions to wake.
    pub fn take(&mut self) -> (r: Vec<String>)
        ensures
            r.deep_view() == old(self)@,
            final(self)@ == Seq::<Seq<char>>::empty(),
    {
        let mut out: Vec<String> = Vec::new();
        std::mem::swap(&mut out, &mut self.sessions);
        out
    }
}

/// However many results of a session come in within a window, it is woken once.
pub proof fn a_session_is_woken_once(sessions: Seq<Seq<char>>, session: Seq<char>)
    requires
        sessions.no_duplicates(),
    ensures
        noted(sessions, session).no_duplicates(),
        noted(sessions, session).contains(session),
        noted(noted(sessions, session), session) == noted(sessions, session),
{
    let all = noted(sessions, session);
    if !sessions.contains(session) {
        assert(all[all.len() - 1] == session);
        assert forall|i: int, j: int|
            0 <= i < all.len() && 0 <= j < all.len() && i != j implies all[i] != all[j] by {
            if i < sessions.len() && j < sessions.len() {
                assert(sessions[i] != sessions[j]);
            } else if i < sessions.len() {
                assert(sessions.contains(sessions[i]));
            } else {
                assert(sessions.contains(sessions[j]));
            }
        }
    }
}

} // verus!

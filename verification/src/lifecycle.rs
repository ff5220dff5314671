//! The agents that have been launched and the states that they go through.
use vstd::prelude::*;

use crate::clock::Timestamp;
use crate::errors::LoomError;
use crate::isolation::IsolationLevel;

verus! {

broadcast use crate::seqs::group_views;

/// The state of an agent.
#[derive(Debug, Clone, Copy, PartialEq, Eq, Structural)]
pub enum AgentState {
    Created,
    Starting,
    Running,
    Paused,
    Stopping,
    Stopped,
    Failed,
    Destroyed,
}

/// The states that may follow a state.
pub open spec fn may_follow(from: AgentState, to: AgentState) -> bool {
    match from {
        AgentState::Created => to == AgentState::Starting || to == AgentState::Running,
        AgentState::Starting => to == AgentState::Running || to == AgentState::Failed,
        AgentState::Running => to == AgentState::Paused || to == AgentState::Stopping || to
            == AgentState::Failed,
        AgentState::Paused => to == AgentState::Running || to == AgentState::Stopping || to
            == AgentState::Failed,
        AgentState::Stopping => to == AgentState::Stopped || to == AgentState::Failed,
        AgentState::Stopped => to == AgentState::Running || to == AgentState::Destroyed,
        AgentState::Failed => to == AgentState::Running || to == AgentState::Destroyed,
        AgentState::Destroyed => false,
    }
}

/// The name of a state.
pub open spec fn state_name(state: AgentState) -> Seq<char> {
    match state {
        AgentState::Created => "Created"@,
        AgentState::Starting => "Starting"@,
        AgentState::Running => "Running"@,
        AgentState::Paused => "Paused"@,
        AgentState::Stopping => "Stopping"@,
        AgentState::Stopped => "Stopped"@,
        AgentState::Failed => "Failed"@,
        AgentState::Destroyed => "Destroyed"@,
    }
}

impl AgentState {
    /// Whether the other state may follow this one.
    pub fn can_transition_to(&self, next: AgentState) -> (r: bool)
        ensures
            r == may_follow(*self, next),
    {
        match (*self, next) {
            (AgentState::Created, AgentState::Starting) => true,
            (AgentState::Created, AgentState::Running) => true,
            (AgentState::Starting, AgentState::Running) => true,
            (AgentState::Starting, AgentState::Failed) => true,
            (AgentState::Running, AgentState::Paused) => true,
            (AgentState::Running, AgentState::Stopping) => true,
            (AgentState::Running, AgentState::Failed) => true,
            (AgentState::Paused, AgentState::Running) => true,
            (AgentState::Paused, AgentState::Stopping) => true,
            (AgentState::Paused, AgentState::Failed) => true,
            (AgentState::Stopping, AgentState::Stopped) => true,
            (AgentState::Stopping, AgentState::Failed) => true,
            (AgentState::Stopped, AgentState::Running) => true,
            (AgentState::Stopped, AgentState::Destroyed) => true,
            (AgentState::Failed, AgentState::Running) => true,
            (AgentState::Failed, AgentState::Destroyed) => true,
            _ => false,
        }
    }

    /// Whether no state follows this one.
    pub fn is_terminal(&self) -> (r: bool)
        ensures
            r == (*self == AgentState::Destroyed),
    {
        *self == AgentState::Destroyed
    }

    /// Whether the agent is running or about to.
    pub fn is_active(&self) -> (r: bool)
        ensures
            r == (*self == AgentState::Starting || *self == AgentState::Running),
    {
        *self == AgentState::Starting || *self == AgentState::Running
    }

    /// The name of the state.
    pub fn name(&self) -> (r: &'static str)
        ensures
            r@ == state_name(*self),
    {
        match self {
            AgentState::Created => "Created",
            AgentState::Starting => "Starting",
            AgentState::Running => "Running",
            AgentState::Paused => "Paused",
            AgentState::Stopping => "Stopping",
            AgentState::Stopped => "Stopped",
            AgentState::Failed => "Failed",
            AgentState::Destroyed => "Destroyed",
        }
    }
}

/// The only state that nothing follows is the one of a destroyed agent, and no state
/// follows itself.
pub proof fn only_destroyed_is_final(state: AgentState)
    ensures
        (forall|next: AgentState| !may_follow(state, next)) == (state == AgentState::Destroyed),
        !may_follow(state, state),
{
    if state != AgentState::Destroyed {
        let next = match state {
            AgentState::Running => AgentState::Failed,
            AgentState::Stopping => AgentState::Stopped,
            _ => AgentState::Running,
        };
        assert(may_follow(state, next));
    }
}

/// An agent that has been launched.
#[derive(Debug, PartialEq, Eq)]
pub struct AgentHandle {
    pub agent_id: u128,
    pub state: AgentState,
    pub isolation: IsolationLevel,
    pub parent_agent_id: Option<u128>,
    pub created_at: Timestamp,
    pub goal: String,
}

/// What an agent that has been launched is.
#[verifier::ext_equal]
pub struct HandleModel {
    pub agent_id: u128,
    pub state: AgentState,
    pub isolation: IsolationLevel,
    pub parent_agent_id: Option<u128>,
    pub created_at: Timestamp,
    pub goal: Seq<char>,
}

impl View for AgentHandle {
    type V = HandleModel;

    open spec fn view(&self) -> HandleModel {
        HandleModel {
            agent_id: self.agent_id,
            state: self.state,
            isolation: self.isolation,
            parent_agent_id: self.parent_agent_id,
            created_at: self.created_at,
            goal: self.goal@,
        }
    }
}

impl DeepView for AgentHandle {
    type V = HandleModel;

    open spec fn deep_view(&self) -> HandleModel {
        self@
    }
}

impl Clone for AgentHandle {
    fn clone(&self) -> (r: Self)
        ensures
            r@ == self@,
    {
        AgentHandle {
            agent_id: self.agent_id,
            state: self.state,
            isolation: self.isolation,
            parent_agent_id: self.parent_agent_id,
            created_at: self.created_at,
            goal: self.goal.clone(),
        }
    }
}

/// The agents that have been launched and have not ended. No two have the same
/// identifier.
#[derive(Debug)]
pub struct AgentTable {
    agents: Vec<AgentHandle>,
}

/// No two agents have the same identifier.
pub open spec fn ids_differ(agents: Seq<HandleModel>) -> bool {
    forall|i: int, j: int|
        0 <= i < j < agents.len() ==> (#[trigger] agents[i]).agent_id != (
        #[trigger] agents[j]).agent_id
}

/// The agent stands at that position.
pub open spec fn stands_at(agents: Seq<HandleModel>, id: u128, i: int) -> bool {
    0 <= i < agents.len() && agents[i].agent_id == id
}

/// The agent is among those.
pub open spec fn is_known(agents: Seq<HandleModel>, id: u128) -> bool {
    exists|i: int| stands_at(agents, id, i)
}

/// Where the agent stands.
pub open spec fn position_of(agents: Seq<HandleModel>, id: u128) -> int {
    choose|i: int| stands_at(agents, id, i)
}

/// The state of the agent.
pub open spec fn state_of(agents: Seq<HandleModel>, id: u128) -> AgentState {
    agents[position_of(agents, id)].state
}

/// The agents with that one in another state.
pub open spec fn with_state(
    agents: Seq<HandleModel>,
    id: u128,
    state: AgentState,
) -> Seq<HandleModel> {
    let i = position_of(agents, id);
    agents.update(i, HandleModel { state, ..agents[i] })
}

impl View for AgentTable {
    type V = Seq<HandleModel>;

    closed spec fn view(&self) -> Seq<HandleModel> {
        self.agents.deep_view()
    }
}

impl AgentTable {
    /// No two agents have the same identifier.
    pub open spec fn wf(self) -> bool {
        ids_differ(self@)
    }

    /// A table without agents.
    pub fn new() -> (r: Self)
        ensures
            r.wf(),
            r@ == Seq::<HandleModel>::empty(),
    {
        AgentTable { agents: Vec::new() }
    }

    /// Where the agent stands.
    fn find(&self, id: u128) -> (r: Option<usize>)
        requires
            self.wf(),
        ensures
            match r {
                Some(i) => is_known(self@, id) && position_of(self@, id) == i && i
                    < self.agents@.len(),
                None => !is_known(self@, id),
            },
    {
        let mut i: usize = 0;
        while i < self.agents.len()
            invariant
                self.wf(),
                i <= self.agents@.len(),
                forall|j: int| 0 <= j < i ==> !stands_at(self@, id, j),
            decreases self.agents@.len() - i,
        {
            if self.agents[i].agent_id == id {
                assert(stands_at(self@, id, i as int));
                let ghost k = position_of(self@, id);
                assert(stands_at(self@, id, k));
                assert(k == i as int) by {
                    if k < i {
                    } else if i < k {
                        assert(self@[i as int].agent_id != self@[k].agent_id);
                    }
                }
                return Some(i);
            }
            i += 1;
        }
        None
    }

    /// Notes an agent that has been launched, as running. One of the same identifier
    /// gives way.
    pub fn launch(&mut self, handle: AgentHandle)
        requires
            old(self).wf(),
        ensures
            final(self).wf(),
            final(self)@ == if is_known(old(self)@, handle.agent_id) {
                old(self)@.update(
                    position_of(old(self)@, handle.agent_id),
                    HandleModel { state: AgentState::Running, ..handle@ },
                )
            } else {
                old(self)@.push(HandleModel { state: AgentState::Running, ..handle@ })
            },
    {
        let id: u128 = handle.agent_id;
        let mut handle = handle;
        handle.state = AgentState::Running;
        match self.find(id) {
            Some(i) => {
                self.agents.set(i, handle);
            },
            None => {
                let ghost before = self@;
                assert forall|j: int| 0 <= j < before.len() implies before[j].agent_id != id by {
                    assert(!stands_at(before, id, j));
                }
                self.agents.push(handle);
            },
        }
    }

    /// Moves an agent to another state, where that may follow its own.
    pub fn transition(&mut self, id: u128, next: AgentState) -> (r: Result<(), LoomError>)
        requires
            old(self).wf(),
        ensures
            final(self).wf(),
            ({
                let known = is_known(old(self)@, id);
                let from = state_of(old(self)@, id);
                match r {
                    Ok(_) => known && may_follow(from, next) && final(self)@ == with_state(
                        old(self)@,
                        id,
                        next,
                    ),
                    Err(LoomError::AgentNotFound(e)) => !known && e == id && final(self)@ == old(
                        self,
                    )@,
                    Err(LoomError::InvalidStateTransition { from: f, to: t }) => known
                        && !may_follow(from, next) && f@ == state_name(from) && t@ == state_name(
                        next,
                    ) && final(self)@ == old(self)@,
                    Err(_) => false,
                }
            }),
    {
        match self.find(id) {
            None => Err(LoomError::AgentNotFound(id)),
            Some(i) => {
                let from = self.agents[i].state;
                if !from.can_transition_to(next) {
                    return Err(
                        LoomError::InvalidStateTransition {
                            from: String::from_str(from.name()),
                            to: String::from_str(next.name()),
                        },
                    );
                }
                let mut handle = self.agents[i].clone();
                handle.state = next;
                self.agents.set(i, handle);
                Ok(())
            },
        }
    }

    /// The agent with that identifier.
    pub fn get_status(&self, id: u128) -> (r: Result<AgentHandle, LoomError>)
        requires
            self.wf(),
        ensures
            match r {
                Ok(h) => is_known(self@, id) && h@ == self@[position_of(self@, id)],
                Err(e) => !is_known(self@, id) && e == LoomError::AgentNotFound(id),
            },
    {
        match self.find(id) {
            Some(i) => Ok(self.agents[i].clone()),
            None => Err(LoomError::AgentNotFound(id)),
        }
    }

    /// All agents.
    pub fn list(&self) -> (r: Vec<AgentHandle>)
        ensures
            r.deep_view() == self@,
    {
        let mut out: Vec<AgentHandle> = Vec::new();
        let mut i: usize = 0;
        while i < self.agents.len()
            invariant
                i <= self.agents@.len(),
                out@.len() == i,
                forall|j: int| 0 <= j < i ==> (#[trigger] out@[j])@ == self.agents@[j]@,
            decreases self.agents@.len() - i,
        {
            out.push(self.agents[i].clone());
            i += 1;
        }
        assert(out.deep_view() =~= self@);
        out
    }

    /// Whether an agent is to be stopped before it is destroyed.
    pub fn is_live(&self, id: u128) -> (r: bool)
        requires
            self.wf(),
        ensures
            r == (is_known(self@, id) && (state_of(self@, id) == AgentState::Running || state_of(
                self@,
                id,
            ) == AgentState::Paused)),
    {
        match self.find(id) {
            Some(i) => self.agents[i].state == AgentState::Running || self.agents[i].state
                == AgentState::Paused,
            None => false,
        }
    }

    /// Destroys an agent, whatever its state.
    pub fn destroy(&mut self, id: u128) -> (r: Result<(), LoomError>)
        requires
            old(self).wf(),
        ensures
            final(self).wf(),
            match r {
                Ok(_) => is_known(old(self)@, id) && final(self)@ == old(self)@.remove(
                    position_of(old(self)@, id),
                ),
                Err(e) => !is_known(old(self)@, id) && e == LoomError::AgentNotFound(id)
                    && final(self)@ == old(self)@,
            },
            !is_known(final(self)@, id),
    {
        if self.remove(id) {
            Ok(())
        } else {
            Err(LoomError::AgentNotFound(id))
        }
    }

    /// Drops an agent that has ended; says whether it was there.
    pub fn remove(&mut self, id: u128) -> (r: bool)
        requires
            old(self).wf(),
        ensures
            final(self).wf(),
            r == is_known(old(self)@, id),
            final(self)@ == if r {
                old(self)@.remove(position_of(old(self)@, id))
            } else {
                old(self)@
            },
            !is_known(final(self)@, id),
    {
        match self.find(id) {
            Some(i) => {
                let ghost before = self@;
                self.agents.remove(i);
                assert(self@ =~= before.remove(i as int));
                assert forall|j: int| !stands_at(self@, id, j) by {
                    if stands_at(self@, id, j) {
                        let k = if j < i { j } else { j + 1 };
                        assert(before[k] == self@[j]);
                        if k < i {
                            assert(before[k].agent_id != before[i as int].agent_id);
                        } else {
                            assert(before[i as int].agent_id != before[k].agent_id);
                        }
                    }
                }
                assert forall|a: int, b: int| 0 <= a < b < self@.len() implies (
                #[trigger] self@[a]).agent_id != (#[trigger] self@[b]).agent_id by {
                    let x = if a < i { a } else { a + 1 };
                    let y = if b < i { b } else { b + 1 };
                    assert(before[x] == self@[a]);
                    assert(before[y] == self@[b]);
                    assert(before[x].agent_id != before[y].agent_id);
                }
                true
            },
            None => false,
        }
    }
}

/// How the states of an agent follow one another: it starts and runs, pauses and runs again, is
/// stopped by way of stopping, may fail while it is at work, runs again after it was stopped
/// or failed, and can be destroyed then.
pub proof fn how_agents_live(from: AgentState, to: AgentState)
    ensures
        may_follow(from, AgentState::Running) == (from == AgentState::Created || from
            == AgentState::Starting || from == AgentState::Paused || from == AgentState::Stopped
            || from == AgentState::Failed),
        may_follow(from, AgentState::Starting) == (from == AgentState::Created),
        may_follow(from, AgentState::Paused) == (from == AgentState::Running),
        may_follow(from, AgentState::Stopping) == (from == AgentState::Running || from
            == AgentState::Paused),
        may_follow(from, AgentState::Stopped) == (from == AgentState::Stopping),
        may_follow(from, AgentState::Failed) == (from == AgentState::Starting || from
            == AgentState::Running || from == AgentState::Paused || from
            == AgentState::Stopping),
        may_follow(from, AgentState::Destroyed) == (from == AgentState::Stopped || from
            == AgentState::Failed),
        !may_follow(from, AgentState::Created),
{
}

/// Changing the state of an agent changes its state and nothing else, of nobody else.
pub proof fn only_the_state_changes(agents: Seq<HandleModel>, id: u128, state: AgentState, j: int)
    requires
        is_known(agents, id),
        0 <= j < agents.len(),
    ensures
        ({
            let after = with_state(agents, id, state);
            let i = position_of(agents, id);
            &&& after.len() == agents.len()
            &&& j != i ==> after[j] == agents[j]
            &&& after[i].state == state
            &&& after[i].agent_id == id
            &&& after[i].goal == agents[i].goal
            &&& after[i].parent_agent_id == agents[i].parent_agent_id
            &&& after[i].isolation == agents[i].isolation
        }),
{
    assert(stands_at(agents, id, position_of(agents, id)));
}

/// The states are told apart by their names.
pub proof fn states_have_their_names(a: AgentState, b: AgentState)
    ensures
        state_name(a) == state_name(b) ==> a == b,
        state_name(AgentState::Running) == "Running"@,
        state_name(AgentState::Failed) == "Failed"@,
        state_name(AgentState::Stopped) == "Stopped"@,
{
    reveal_strlit("Created");
    reveal_strlit("Starting");
    reveal_strlit("Running");
    reveal_strlit("Paused");
    reveal_strlit("Stopping");
    reveal_strlit("Stopped");
    reveal_strlit("Failed");
    reveal_strlit("Destroyed");
    assert("Created"@.len() == 7);
    assert("Starting"@.len() == 8);
    assert("Running"@.len() == 7);
    assert("Paused"@.len() == 6);
    assert("Stopping"@.len() == 8);
    assert("Stopped"@.len() == 7);
    assert("Failed"@.len() == 6);
    assert("Destroyed"@.len() == 9);
    assert("Created"@[0] == 'C');
    assert("Failed"@[0] == 'F');
    assert("Paused"@[0] == 'P');
    assert("Running"@[0] == 'R');
    assert("Starting"@[2] == 'a');
    assert("Stopped"@[0] == 'S');
    assert("Stopping"@[2] == 'o');
}

} // verus!

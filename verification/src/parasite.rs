//! The agent registry: records, their lifecycle status, and the manager
//! that creates, looks up, lists, and deactivates them.

use vstd::prelude::*;

verus! {

/// Lifecycle state of an agent record. A record starts `Active`; the only
/// transition is `Active` to `Deactivated`, and `Deactivated` is absorbing.
#[derive(Clone, Copy, Debug, PartialEq, Eq, Structural)]
pub enum AgentStatus {
    Active,
    Deactivated,
}

impl AgentStatus {
    /// Human-readable label of the status, for display and reporting.
    pub fn label(&self) -> (r: &'static str)
        ensures
            *self == AgentStatus::Active ==> r@ == "Active"@,
            *self == AgentStatus::Deactivated ==> r@ == "Deactivated"@,
    {
        match self {
            AgentStatus::Active => "Active",
            AgentStatus::Deactivated => "Deactivated",
        }
    }

    /// Parses a status back from its label: the inverse of `label`.
    pub fn from_label(label: &str) -> (r: Option<AgentStatus>)
        ensures
            r == Some(AgentStatus::Active) <==> label@ == "Active"@,
            r == Some(AgentStatus::Deactivated) <==> label@ == "Deactivated"@,
            r is None <==> (label@ != "Active"@ && label@ != "Deactivated"@),
    {
        proof {
            reveal_strlit("Active");
            reveal_strlit("Deactivated");
            assert("Active"@.len() == 6);
            assert("Deactivated"@.len() == 11);
            assert("Active"@ != "Deactivated"@);
        }
        let l = label.to_owned();
        if l == "Active".to_owned() {
            Some(AgentStatus::Active)
        } else if l == "Deactivated".to_owned() {
            Some(AgentStatus::Deactivated)
        } else {
            None
        }
    }
}

/// Mathematical model of one agent record: the identifier as a plain
/// 128-bit value, the string fields as character sequences.
pub struct AgentView {
    pub id: u128,
    pub name: Seq<char>,
    pub target_agent: Seq<char>,
    pub capabilities: Seq<Seq<char>>,
    pub status: AgentStatus,
}

/// One tracked agent record. The identifier is assigned by the registry at
/// creation time and never changes; the other fields besides `status` are
/// caller-supplied and immutable thereafter.
pub struct ParasiticAgent {
    pub id: u128,
    pub name: String,
    pub target_agent: String,
    pub capabilities: Vec<String>,
    pub status: AgentStatus,
}

impl View for ParasiticAgent {
    type V = AgentView;

    open spec fn view(&self) -> AgentView {
        AgentView {
            id: self.id,
            name: self.name@,
            target_agent: self.target_agent@,
            capabilities: self.capabilities.deep_view(),
            status: self.status,
        }
    }
}

impl Clone for ParasiticAgent {
    fn clone(&self) -> (r: Self)
        ensures
            r@ == self@,
    {
        let r = ParasiticAgent {
            id: self.id,
            name: self.name.clone(),
            target_agent: self.target_agent.clone(),
            capabilities: self.capabilities.clone(),
            status: self.status,
        };
        proof {
            assert forall|i: int| 0 <= i < self.capabilities@.len() implies r.capabilities@[i]
                == self.capabilities@[i] by {
                assert(cloned::<String>(self.capabilities[i], r.capabilities[i]));
            }
            assert(r.capabilities.deep_view() =~= self.capabilities.deep_view());
        }
        r
    }
}

/// There is a record with identifier `id` in `s`.
pub open spec fn has_id(s: Seq<AgentView>, id: u128) -> bool {
    exists|i: int| 0 <= i < s.len() && s[i].id == id
}

/// All identifiers in `s` are pairwise distinct.
pub open spec fn distinct_ids(s: Seq<AgentView>) -> bool {
    forall|i: int, j: int| 0 <= i < j < s.len() ==> s[i].id != s[j].id
}

/// Position of the record with identifier `id` in `s` (meaningful when
/// `has_id(s, id)` holds; with `distinct_ids(s)` it is the one position).
pub open spec fn index_of_id(s: Seq<AgentView>, id: u128) -> int {
    choose|i: int| 0 <= i < s.len() && s[i].id == id
}

/// The record with identifier `id` in `s` (meaningful when `has_id(s, id)`).
pub open spec fn agent_with_id(s: Seq<AgentView>, id: u128) -> AgentView {
    s[index_of_id(s, id)]
}

/// The same record with its status set to `Deactivated`.
pub open spec fn deactivated(a: AgentView) -> AgentView {
    AgentView { status: AgentStatus::Deactivated, ..a }
}

/// The record a create operation builds from its inputs and the fresh `id`.
pub open spec fn created_view(
    id: u128,
    name: Seq<char>,
    target_agent: Seq<char>,
    capabilities: Seq<Seq<char>>,
) -> AgentView {
    AgentView { id, name, target_agent, capabilities, status: AgentStatus::Active }
}

/// One create operation took the registry contents from `pre` to `post`,
/// returning the record `r`: `r` carries an identifier no earlier record
/// had, and is appended to the store.
pub open spec fn create_step(pre: Seq<AgentView>, post: Seq<AgentView>, r: AgentView) -> bool {
    &&& !has_id(pre, r.id)
    &&& post == pre.push(r)
}

/// One successful deactivate operation took the registry contents from
/// `pre` to `post`: the one record with identifier `id` has its status set
/// to `Deactivated`, every other record is unchanged.
pub open spec fn deactivate_step(pre: Seq<AgentView>, post: Seq<AgentView>, id: u128) -> bool {
    &&& has_id(pre, id)
    &&& post == pre.update(index_of_id(pre, id), deactivated(agent_with_id(pre, id)))
}

/// With distinct identifiers, any position holding `id` is the position
/// `index_of_id` picks, so `agent_with_id` is the record at that position.
pub proof fn lemma_agent_with_id_unique(s: Seq<AgentView>, id: u128, i: int)
    requires
        distinct_ids(s),
        0 <= i < s.len(),
        s[i].id == id,
    ensures
        has_id(s, id),
        index_of_id(s, id) == i,
        agent_with_id(s, id) == s[i],
{
    assert(has_id(s, id));
    let j = index_of_id(s, id);
    assert(0 <= j < s.len() && s[j].id == id);
    if i < j {
        assert(s[i].id != s[j].id);
    } else if j < i {
        assert(s[j].id != s[i].id);
    }
}

/// Manages the registry's agent records: the sole authority over agent
/// identity and lifecycle state. The store only ever grows; records are
/// deactivated, never removed, and identifiers are never reused.
pub struct ParasiteManager {
    agents: Vec<ParasiticAgent>,
}

impl View for ParasiteManager {
    type V = Seq<AgentView>;

    closed spec fn view(&self) -> Seq<AgentView> {
        Seq::new(self.agents.len() as nat, |i: int| self.agents[i]@)
    }
}

/// Relies on `uuid::Uuid::new_v4`, which draws a version-4 UUID from the
/// process's random source, read back as its 128-bit value through
/// `uuid::Uuid::as_u128`. Nothing is promised of a random value.
#[verifier::external_body]
fn fresh_random_id() -> u128 {
    uuid::Uuid::new_v4().as_u128()
}

impl ParasiteManager {
    /// Internal invariant: stored identifiers are pairwise distinct.
    pub open spec fn wf(&self) -> bool {
        distinct_ids(self@)
    }

    /// Creates an empty registry.
    pub fn new() -> (r: Self)
        ensures
            r.wf(),
            r@ == Seq::<AgentView>::empty(),
    {
        let r = ParasiteManager { agents: Vec::new() };
        proof {
            assert(r@ =~= Seq::<AgentView>::empty());
        }
        r
    }

    /// Whether a record with identifier `id` is stored.
    pub fn contains_id(&self, id: u128) -> (r: bool)
        ensures
            r == has_id(self@, id),
    {
        let n = self.agents.len();
        let mut i: usize = 0;
        while i < n
            invariant
                n == self.agents.len(),
                0 <= i <= n,
                forall|j: int| 0 <= j < i ==> self@[j].id != id,
            decreases n - i,
        {
            if self.agents[i].id == id {
                assert(self@[i as int].id == id);
                return true;
            }
            i += 1;
        }
        false
    }

    /// Creates, stores, and returns a record under the given identifier:
    /// succeeds exactly when `id` is not yet in the registry, in which case
    /// the new record carries the caller's fields and starts `Active`.
    /// Lets callers (and tests) inject a deterministic identifier source.
    pub fn create_agent_with_id(
        &mut self,
        id: u128,
        name: &str,
        target_agent: &str,
        capabilities: Vec<String>,
    ) -> (r: Option<ParasiticAgent>)
        requires
            old(self).wf(),
        ensures
            final(self).wf(),
            r is Some <==> !has_id(old(self)@, id),
            r is None ==> final(self)@ == old(self)@,
            r matches Some(agent) ==> agent@ == created_view(
                id,
                name@,
                target_agent@,
                capabilities.deep_view(),
            ) && create_step(old(self)@, final(self)@, agent@),
    {
        if self.contains_id(id) {
            return None;
        }
        let agent = ParasiticAgent {
            id,
            name: name.to_owned(),
            target_agent: target_agent.to_owned(),
            capabilities,
            status: AgentStatus::Active,
        };
        let copy = agent.clone();
        self.agents.push(agent);
        proof {
            assert(self@ =~= old(self)@.push(copy@));
            assert forall|i: int, j: int| 0 <= i < j < self@.len() implies self@[i].id
                != self@[j].id by {
                if j < old(self)@.len() {
                    assert(old(self)@[i].id != old(self)@[j].id);
                } else {
                    assert(!(0 <= i < old(self)@.len() && old(self)@[i].id == id));
                }
            }
        }
        Some(copy)
    }

    /// Creates, stores, and returns a record under a freshly drawn random
    /// identifier. Returns `None` only if the drawn identifier collided
    /// with one already issued (identifier generation failed); the registry
    /// is then unchanged. On an empty registry no identifier can collide,
    /// so creation succeeds.
    pub fn create_parasitic_agent(
        &mut self,
        name: &str,
        target_agent: &str,
        capabilities: Vec<String>,
    ) -> (r: Option<ParasiticAgent>)
        requires
            old(self).wf(),
        ensures
            final(self).wf(),
            old(self)@.len() == 0 ==> r is Some,
            r is None ==> final(self)@ == old(self)@,
            r matches Some(agent) ==> agent@ == created_view(
                agent@.id,
                name@,
                target_agent@,
                capabilities.deep_view(),
            ) && create_step(old(self)@, final(self)@, agent@),
    {
        let id = fresh_random_id();
        self.create_agent_with_id(id, name, target_agent, capabilities)
    }

    /// Returns a copy of the stored record with identifier `id`, or `None`
    /// exactly when no record carries that identifier. Never mutates state.
    pub fn get_parasitic_agent(&self, id: u128) -> (r: Option<ParasiticAgent>)
        requires
            self.wf(),
        ensures
            r is Some <==> has_id(self@, id),
            r matches Some(agent) ==> agent@ == agent_with_id(self@, id) && agent@.id == id,
    {
        let n = self.agents.len();
        let mut i: usize = 0;
        while i < n
            invariant
                n == self.agents.len(),
                0 <= i <= n,
                self.wf(),
                forall|j: int| 0 <= j < i ==> self@[j].id != id,
            decreases n - i,
        {
            if self.agents[i].id == id {
                let copy = self.agents[i].clone();
                proof {
                    lemma_agent_with_id_unique(self@, id, i as int);
                }
                return Some(copy);
            }
            i += 1;
        }
        None
    }

    /// Returns a snapshot of all stored records, in insertion order (callers
    /// must not depend on the order). The snapshot is an owned copy: later
    /// mutation of the registry cannot change it.
    pub fn list_agents(&self) -> (r: Vec<ParasiticAgent>)
        ensures
            r.len() == self@.len(),
            forall|i: int| 0 <= i < r.len() ==> r[i]@ == self@[i],
    {
        let n = self.agents.len();
        let mut r: Vec<ParasiticAgent> = Vec::new();
        let mut i: usize = 0;
        while i < n
            invariant
                n == self.agents.len(),
                0 <= i <= n,
                r.len() == i,
                forall|j: int| 0 <= j < i ==> r[j]@ == self@[j],
            decreases n - i,
        {
            r.push(self.agents[i].clone());
            i += 1;
        }
        r
    }

    /// Sets the status of the record with identifier `id` to `Deactivated`
    /// (idempotently: the record may already be deactivated), or reports
    /// that no record carries that identifier. No other field changes.
    pub fn deactivate_agent(&mut self, id: u128) -> (r: Result<(), String>)
        requires
            old(self).wf(),
        ensures
            final(self).wf(),
            r is Ok <==> has_id(old(self)@, id),
            r is Ok ==> deactivate_step(old(self)@, final(self)@, id),
            r is Err ==> final(self)@ == old(self)@,
            r matches Err(m) ==> m@ == "Agent not found"@,
    {
        let n = self.agents.len();
        let mut i: usize = 0;
        while i < n
            invariant
                n == self.agents.len(),
                0 <= i <= n,
                self.wf(),
                self@ == old(self)@,
                forall|j: int| 0 <= j < i ==> self@[j].id != id,
            decreases n - i,
        {
            if self.agents[i].id == id {
                let cur = self.agents[i].clone();
                let updated = ParasiticAgent {
                    id: cur.id,
                    name: cur.name,
                    target_agent: cur.target_agent,
                    capabilities: cur.capabilities,
                    status: AgentStatus::Deactivated,
                };
                proof {
                    lemma_agent_with_id_unique(old(self)@, id, i as int);
                }
                self.agents.set(i, updated);
                proof {
                    assert(self@ =~= old(self)@.update(
                        i as int,
                        deactivated(agent_with_id(old(self)@, id)),
                    ));
                    assert forall|p: int, q: int| 0 <= p < q < self@.len() implies self@[p].id
                        != self@[q].id by {
                        assert(self@[p].id == old(self)@[p].id);
                        assert(self@[q].id == old(self)@[q].id);
                    }
                }
                return Ok(());
            }
            i += 1;
        }
        Err("Agent not found".to_owned())
    }
}

} // verus!

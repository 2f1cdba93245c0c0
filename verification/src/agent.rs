//! The registry of connected agents.
//!
//! Each agent is kept under its own id; heartbeats refresh its last-seen
//! time, and agents silent for longer than a threshold are reported stale.
use vstd::prelude::*;
use dashmap::DashMap;
use crate::clock::{utc_now_millis, whole_seconds, seconds_between};
use crate::message::CapabilityManifest;

verus! {

/// A connected agent. Times are milliseconds since the Unix epoch; the
/// UUID is kept as its 128-bit value.
#[derive(Debug, Clone)]
pub struct Agent {
    pub id: String,
    pub uuid: u128,
    pub hostname: String,
    pub namespace: String,
    pub manifest: CapabilityManifest,
    pub connected_at: i64,
    pub last_heartbeat: i64,
}

/// What the agent table holds: agent id to agent.
pub uninterp spec fn agent_table(m: DashMap<String, Agent>) -> Map<Seq<char>, Agent>;

/// `DashMap::new`: an empty table.
#[verifier::external_body]
fn table_new() -> (r: DashMap<String, Agent>)
    ensures
        (agent_table(r) == Map::<Seq<char>, Agent>::empty()),
{
    DashMap::new()
}

/// `DashMap::get`, cloning the agent out: the entry for `key`, if any.
#[verifier::external_body]
fn table_get(m: &DashMap<String, Agent>, key: &str) -> (r: Option<Agent>)
    ensures
        r == (if agent_table(*m).contains_key(key@) { Some(agent_table(*m)[key@]) } else { None }),
{
    m.get(key).map(|e| e.clone())
}

/// `DashMap::insert`: the entry for `key` becomes `v`, the others stay.
#[verifier::external_body]
fn table_insert(m: &mut DashMap<String, Agent>, key: String, v: Agent)
    ensures
        agent_table(*final(m)) == agent_table(*old(m)).insert(key@, v),
{
    m.insert(key, v);
}

/// `DashMap::remove`: the entry for `key` leaves and is handed back.
#[verifier::external_body]
fn table_remove(m: &mut DashMap<String, Agent>, key: &str) -> (r: Option<Agent>)
    ensures
        agent_table(*final(m)) == agent_table(*old(m)).remove(key@),
        r == (if agent_table(*old(m)).contains_key(key@) { Some(agent_table(*old(m))[key@]) } else { None }),
{
    m.remove(key).map(|(_, a)| a)
}

/// `DashMap::len`: the number of entries.
#[verifier::external_body]
fn table_len(m: &DashMap<String, Agent>) -> (r: usize)
    ensures
        r == agent_table(*m).dom().len(),
{
    m.len()
}

/// `DashMap::iter`, cloning each entry out: every entry once, in the
/// table's own order.
#[verifier::external_body]
fn table_entries(m: &DashMap<String, Agent>) -> (r: Vec<(String, Agent)>)
    ensures
        r@.len() == agent_table(*m).dom().len(),
        (forall|i: int| 0 <= i < r@.len() ==> #[trigger] agent_table(*m).contains_key(r@[i].0@)
            && agent_table(*m)[r@[i].0@] === r@[i].1),
        (forall|i: int, j: int| 0 <= i < j < r@.len() ==> r@[i].0@ != r@[j].0@),
        (forall|k: Seq<char>| #[trigger] agent_table(*m).contains_key(k) ==> exists|i: int| 0 <= i < r@.len() && r@[i].0@ == k),
{
    m.iter().map(|e| (e.key().clone(), e.value().clone())).collect()
}

/// Whether `a` has sent no heartbeat for more than `threshold_secs` whole
/// seconds at time `now`.
pub open spec fn is_stale(a: Agent, threshold_secs: i64, now: i64) -> bool {
    whole_seconds(a.last_heartbeat, now) > threshold_secs
}

/// Whether `ids` names each agent of `agents` that is stale at `now`, each
/// once, and nothing else.
pub open spec fn lists_stale(agents: Map<Seq<char>, Agent>, ids: Seq<String>, threshold_secs: i64, now: i64) -> bool {
    &&& forall|i: int| 0 <= i < ids.len() ==> #[trigger] agents.contains_key(ids[i]@)
        && is_stale(agents[ids[i]@], threshold_secs, now)
    &&& forall|i: int, j: int| 0 <= i < j < ids.len() ==> ids[i]@ != ids[j]@
    &&& forall|k: Seq<char>| #[trigger] agents.contains_key(k) && is_stale(agents[k], threshold_secs, now)
        ==> exists|i: int| 0 <= i < ids.len() && ids[i]@ == k
}

/// Thread-safe agent registry.
#[derive(Debug)]
pub struct AgentRegistry {
    agents: DashMap<String, Agent>,
}

impl AgentRegistry {
    /// The registered agents, by id.
    pub closed spec fn agents(&self) -> Map<Seq<char>, Agent> {
        agent_table(self.agents)
    }

    /// Every agent is kept under its own id.
    #[verifier::type_invariant]
    spec fn keyed_by_id(&self) -> bool {
        forall|k: Seq<char>| #[trigger] agent_table(self.agents).contains_key(k) ==> agent_table(self.agents)[k].id@ == k
    }

    pub fn new() -> (r: Self)
        ensures
            r.agents() == Map::<Seq<char>, Agent>::empty(),
    {
        AgentRegistry { agents: table_new() }
    }

    /// Adds `agent` under its id, replacing any agent registered there.
    pub fn register(&mut self, agent: Agent)
        ensures
            final(self).agents() == old(self).agents().insert(agent.id@, agent),
    {
        proof {
            use_type_invariant(&*self);
        }
        let key = agent.id.clone();
        let mut agents = table_new();
        std::mem::swap(&mut agents, &mut self.agents);
        table_insert(&mut agents, key, agent);
        self.agents = agents;
    }

    /// Removes the agent registered under `agent_id` and hands it back.
    pub fn unregister(&mut self, agent_id: &str) -> (r: Option<Agent>)
        ensures
            final(self).agents() == old(self).agents().remove(agent_id@),
            r == (if old(self).agents().contains_key(agent_id@) { Some(old(self).agents()[agent_id@]) } else { None }),
    {
        proof {
            use_type_invariant(&*self);
        }
        let mut agents = table_new();
        std::mem::swap(&mut agents, &mut self.agents);
        let r = table_remove(&mut agents, agent_id);
        self.agents = agents;
        r
    }

    /// The agent registered under `agent_id`, if any.
    pub fn get(&self, agent_id: &str) -> (r: Option<Agent>)
        ensures
            r == (if self.agents().contains_key(agent_id@) { Some(self.agents()[agent_id@]) } else { None }),
    {
        table_get(&self.agents, agent_id)
    }

    /// Sets the last heartbeat of the agent under `agent_id` to `now`; does
    /// nothing when no agent is registered there.
    pub fn heartbeat_at(&mut self, agent_id: &str, now: i64)
        ensures
            old(self).agents().contains_key(agent_id@) ==> final(self).agents() == old(self).agents().insert(
                agent_id@,
                Agent { last_heartbeat: now, ..old(self).agents()[agent_id@] },
            ),
            !old(self).agents().contains_key(agent_id@) ==> final(self).agents() == old(self).agents(),
    {
        proof {
            use_type_invariant(&*self);
        }
        match table_get(&self.agents, agent_id) {
            Some(a) => {
                let updated = Agent { last_heartbeat: now, ..a };
                let key = updated.id.clone();
                let mut agents = table_new();
                std::mem::swap(&mut agents, &mut self.agents);
                table_insert(&mut agents, key, updated);
                self.agents = agents;
            }
            None => {}
        }
    }

    /// Sets the last heartbeat of the agent under `agent_id` to the current
    /// time; does nothing when no agent is registered there.
    pub fn heartbeat(&mut self, agent_id: &str)
        ensures
            old(self).agents().contains_key(agent_id@) ==> final(self).agents() == old(self).agents().insert(
                agent_id@,
                Agent { last_heartbeat: final(self).agents()[agent_id@].last_heartbeat, ..old(self).agents()[agent_id@] },
            ),
            !old(self).agents().contains_key(agent_id@) ==> final(self).agents() == old(self).agents(),
    {
        let now = utc_now_millis();
        self.heartbeat_at(agent_id, now);
    }

    /// Every registered agent once, in the table's own order.
    pub fn list(&self) -> (r: Vec<Agent>)
        ensures
            r@.len() == self.agents().dom().len(),
            forall|i: int| 0 <= i < r@.len() ==> #[trigger] self.agents().contains_key(r@[i].id@)
                && self.agents()[r@[i].id@] == r@[i],
            forall|i: int, j: int| 0 <= i < j < r@.len() ==> r@[i].id@ != r@[j].id@,
            forall|k: Seq<char>| #[trigger] self.agents().contains_key(k) ==> exists|i: int| 0 <= i < r@.len() && r@[i].id@ == k,
    {
        proof {
            use_type_invariant(self);
        }
        let mut entries = table_entries(&self.agents);
        let ghost all = entries@;
        let mut r: Vec<Agent> = Vec::new();
        while entries.len() > 0
            invariant
                entries@.len() + r@.len() == all.len(),
                entries@ == all.subrange(0, entries@.len() as int),
                forall|j: int| 0 <= j < r@.len() ==> #[trigger] r@[j] == all[all.len() - 1 - j].1,
            decreases entries@.len(),
        {
            let (_, a) = entries.pop().unwrap();
            r.push(a);
        }
        proof {
            assert forall|j: int| 0 <= j < r@.len() implies r@[j].id@ == all[all.len() - 1 - j].0@ by {
                assert(agent_table(self.agents).contains_key(all[all.len() - 1 - j].0@));
            }
            assert forall|k: Seq<char>| #[trigger] self.agents().contains_key(k) implies exists|i: int| 0 <= i < r@.len() && r@[i].id@ == k by {
                let j = choose|j: int| 0 <= j < all.len() && all[j].0@ == k;
                let i = all.len() - 1 - j;
                assert(r@[i].id@ == all[all.len() - 1 - i].0@);
            }
            assert forall|a: int, b: int| 0 <= a < b < r@.len() implies r@[a].id@ != r@[b].id@ by {
                assert(r@[a].id@ == all[all.len() - 1 - a].0@);
                assert(r@[b].id@ == all[all.len() - 1 - b].0@);
            }
        }
        r
    }

    /// The number of registered agents.
    pub fn len(&self) -> (r: usize)
        ensures
            r == self.agents().dom().len(),
    {
        table_len(&self.agents)
    }

    /// Whether no agent is registered.
    pub fn is_empty(&self) -> (r: bool)
        ensures
            r == (self.agents().dom().len() == 0),
    {
        table_len(&self.agents) == 0
    }

    /// The ids of the agents whose last heartbeat is more than
    /// `threshold_secs` whole seconds before `now`, each once, in the table's
    /// own order.
    pub fn stale_agents_at(&self, threshold_secs: i64, now: i64) -> (r: Vec<String>)
        ensures
            lists_stale(self.agents(), r@, threshold_secs, now),
    {
        let entries = table_entries(&self.agents);
        let ghost m = agent_table(self.agents);
        let ghost es = entries@;
        proof {
            assert forall|j: int| 0 <= j < es.len() implies #[trigger] m.contains_key(es[j].0@)
                && m[es[j].0@] === es[j].1 by {
                assert(agent_table(self.agents).contains_key(entries@[j].0@));
            }
        }
        let mut r: Vec<String> = Vec::new();
        let ghost mut idx: Seq<int> = Seq::empty();
        let mut i: usize = 0;
        while i < entries.len()
            invariant
                i <= es.len(),
                entries@ == es,
                forall|j: int| 0 <= j < es.len() ==> #[trigger] m.contains_key(es[j].0@)
                    && m[es[j].0@] === es[j].1,
                forall|x: int, y: int| 0 <= x < y < es.len() ==> es[x].0@ != es[y].0@,
                forall|k: Seq<char>| #[trigger] m.contains_key(k) ==> exists|j: int| 0 <= j < es.len() && es[j].0@ == k,
                idx.len() == r@.len(),
                forall|a: int| 0 <= a < idx.len() ==> 0 <= #[trigger] idx[a] < i && r@[a]@ == es[idx[a]].0@
                    && is_stale(es[idx[a]].1, threshold_secs, now),
                forall|a: int, b: int| 0 <= a < b < idx.len() ==> idx[a] < idx[b],
                forall|j: int| 0 <= j < i && is_stale(#[trigger] es[j].1, threshold_secs, now) ==> exists|a: int| 0 <= a < idx.len() && idx[a] == j,
            decreases entries@.len() - i,
        {
            if seconds_between(entries[i].1.last_heartbeat, now) > threshold_secs as i128 {
                r.push(entries[i].0.clone());
                proof {
                    let ghost old_idx = idx;
                    idx = idx.push(i as int);
                    assert forall|j: int| 0 <= j < i + 1 && is_stale(#[trigger] entries@[j].1, threshold_secs, now) implies exists|a: int| 0 <= a < idx.len() && idx[a] == j by {
                        if j < i {
                            let a = choose|a: int| 0 <= a < old_idx.len() && old_idx[a] == j;
                            assert(idx[a] == j);
                        } else {
                            assert(idx[old_idx.len() as int] == j);
                        }
                    }
                }
            }
            i = i + 1;
        }
        proof {
            assert forall|x: int, y: int| 0 <= x < y < r@.len() implies r@[x]@ != r@[y]@ by {
                assert(idx[x] < idx[y]);
            }
            assert forall|k: Seq<char>| #[trigger] m.contains_key(k) && is_stale(m[k], threshold_secs, now)
                implies exists|a: int| 0 <= a < r@.len() && r@[a]@ == k by {
                let j = choose|j: int| 0 <= j < entries@.len() && entries@[j].0@ == k;
                assert(is_stale(entries@[j].1, threshold_secs, now));
                let a = choose|a: int| 0 <= a < idx.len() && idx[a] == j;
                assert(r@[a]@ == k);
            }
            assert forall|a: int| 0 <= a < r@.len() implies #[trigger] m.contains_key(r@[a]@)
                && is_stale(m[r@[a]@], threshold_secs, now) by {
                assert(0 <= idx[a] < entries@.len());
            }
        }
        r
    }

    /// The ids of the agents whose last heartbeat is more than
    /// `threshold_secs` whole seconds old now.
    pub fn stale_agents(&self, threshold_secs: i64) -> (r: Vec<String>)
        ensures
            exists|now: i64| #[trigger] lists_stale(self.agents(), r@, threshold_secs, now),
    {
        let now = utc_now_millis();
        self.stale_agents_at(threshold_secs, now)
    }
}

/// A heartbeat makes an agent fresh: right after `heartbeat_at(id, now)`,
/// the agent is not stale at `now` for any threshold that is not negative.
pub proof fn heartbeat_clears_staleness(a: Agent, now: i64, threshold_secs: i64)
    requires
        threshold_secs >= 0,
    ensures
        !is_stale(Agent { last_heartbeat: now, ..a }, threshold_secs, now),
{
}

} // verus!

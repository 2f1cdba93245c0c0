//! The table of known AI endpoints, shared by the probe engine, discovery
//! and the routers.
use vstd::prelude::*;
use vstd::seq_lib::*;
use dashmap::DashMap;
use crate::ai::endpoints::{AiEndpoint, EndpointHealth, ProbeOutcome, can_record, probed};

verus! {

/// What an endpoint table holds: endpoint id to endpoint.
pub uninterp spec fn endpoint_table(m: DashMap<String, AiEndpoint>) -> Map<Seq<char>, AiEndpoint>;

/// `DashMap::new`: an empty table.
#[verifier::external_body]
fn table_new() -> (r: DashMap<String, AiEndpoint>)
    ensures
        (endpoint_table(r) == Map::<Seq<char>, AiEndpoint>::empty()),
{
    DashMap::new()
}

/// `DashMap::get`, cloning the endpoint out: the entry for `key`, if any.
#[verifier::external_body]
fn table_get(m: &DashMap<String, AiEndpoint>, key: &str) -> (r: Option<AiEndpoint>)
    ensures
        r === (if endpoint_table(*m).contains_key(key@) { Some(endpoint_table(*m)[key@]) } else { None }),
{
    m.get(key).map(|e| e.clone())
}

/// `DashMap::contains_key`: whether there is an entry for `key`.
#[verifier::external_body]
fn table_contains(m: &DashMap<String, AiEndpoint>, key: &str) -> (r: bool)
    ensures
        r == endpoint_table(*m).contains_key(key@),
{
    m.contains_key(key)
}

/// `DashMap::insert`: the entry for `key` becomes `v`, the others stay.
#[verifier::external_body]
fn table_insert(m: &mut DashMap<String, AiEndpoint>, key: String, v: AiEndpoint)
    ensures
        endpoint_table(*final(m)) === endpoint_table(*old(m)).insert(key@, v),
{
    m.insert(key, v);
}

/// `DashMap::remove`: the entry for `key` leaves and is handed back.
#[verifier::external_body]
fn table_remove(m: &mut DashMap<String, AiEndpoint>, key: &str) -> (r: Option<AiEndpoint>)
    ensures
        endpoint_table(*final(m)) === endpoint_table(*old(m)).remove(key@),
        r === (if endpoint_table(*old(m)).contains_key(key@) { Some(endpoint_table(*old(m))[key@]) } else { None }),
{
    m.remove(key).map(|(_, e)| e)
}

/// `DashMap::len`: the number of entries.
#[verifier::external_body]
fn table_len(m: &DashMap<String, AiEndpoint>) -> (r: usize)
    ensures
        r == endpoint_table(*m).dom().len(),
{
    m.len()
}

/// `DashMap::iter`, cloning each entry out: every entry once, in the
/// table's own order.
#[verifier::external_body]
fn table_entries(m: &DashMap<String, AiEndpoint>) -> (r: Vec<(String, AiEndpoint)>)
    ensures
        r@.len() == endpoint_table(*m).dom().len(),
        (forall|i: int| 0 <= i < r@.len() ==> #[trigger] endpoint_table(*m).contains_key(r@[i].0@)
            && endpoint_table(*m)[r@[i].0@] === r@[i].1),
        (forall|i: int, j: int| 0 <= i < j < r@.len() ==> r@[i].0@ != r@[j].0@),
        (forall|k: Seq<char>| #[trigger] endpoint_table(*m).contains_key(k) ==> exists|i: int| 0 <= i < r@.len() && r@[i].0@ == k),
{
    m.iter().map(|e| (e.key().clone(), e.value().clone())).collect()
}

/// Whether `entries` lists the table `m`: each entry once, and nothing else.
pub open spec fn lists_table(entries: Seq<(String, AiEndpoint)>, m: Map<Seq<char>, AiEndpoint>) -> bool {
    &&& forall|i: int| 0 <= i < entries.len() ==> #[trigger] m.contains_key(entries[i].0@)
        && m[entries[i].0@] === entries[i].1
    &&& forall|i: int, j: int| 0 <= i < j < entries.len() ==> entries[i].0@ != entries[j].0@
    &&& forall|k: Seq<char>| #[trigger] m.contains_key(k) ==> exists|i: int| 0 <= i < entries.len() && entries[i].0@ == k
}

/// The character views of a list of texts, as a set.
pub open spec fn text_set(ids: Seq<String>) -> Set<Seq<char>> {
    ids.map_values(|s: String| s@).to_set()
}

/// A list of distinct texts has as many members as its set.
pub proof fn distinct_texts_count(ids: Seq<String>)
    requires
        forall|i: int, j: int| 0 <= i < j < ids.len() ==> ids[i]@ != ids[j]@,
    ensures
        text_set(ids).finite(),
        text_set(ids).len() == ids.len(),
{
    let v = ids.map_values(|s: String| s@);
    assert(v.no_duplicates()) by {
        assert forall|i: int, j: int| 0 <= i < v.len() && 0 <= j < v.len() && i != j implies v[i] != v[j] by {
            if i < j {
                assert(ids[i]@ != ids[j]@);
            } else {
                assert(ids[j]@ != ids[i]@);
            }
        }
    }
    v.unique_seq_to_set();
    seq_to_set_is_finite(v);
}

/// The AI endpoints known to the hub, each kept under its own id.
#[derive(Debug)]
pub struct EndpointTable {
    endpoints: DashMap<String, AiEndpoint>,
}

impl EndpointTable {
    /// The known endpoints, by id.
    pub closed spec fn endpoints(&self) -> Map<Seq<char>, AiEndpoint> {
        endpoint_table(self.endpoints)
    }

    /// Every endpoint is kept under its own id.
    #[verifier::type_invariant]
    spec fn keyed_by_id(&self) -> bool {
        forall|k: Seq<char>| #[trigger] endpoint_table(self.endpoints).contains_key(k) ==> endpoint_table(self.endpoints)[k].id@ == k
    }

    pub fn new() -> (r: Self)
        ensures
            r.endpoints() == Map::<Seq<char>, AiEndpoint>::empty(),
    {
        EndpointTable { endpoints: table_new() }
    }

    /// Adds `ep` under its id, replacing any endpoint kept there.
    pub fn insert(&mut self, ep: AiEndpoint)
        ensures
            final(self).endpoints() === old(self).endpoints().insert(ep.id@, ep),
    {
        proof {
            use_type_invariant(&*self);
        }
        let key = ep.id.clone();
        let mut t = table_new();
        std::mem::swap(&mut t, &mut self.endpoints);
        table_insert(&mut t, key, ep);
        self.endpoints = t;
    }

    /// Removes the endpoint under `id` and hands it back.
    pub fn remove(&mut self, id: &str) -> (r: Option<AiEndpoint>)
        ensures
            final(self).endpoints() === old(self).endpoints().remove(id@),
            r === (if old(self).endpoints().contains_key(id@) { Some(old(self).endpoints()[id@]) } else { None }),
    {
        proof {
            use_type_invariant(&*self);
        }
        let mut t = table_new();
        std::mem::swap(&mut t, &mut self.endpoints);
        let r = table_remove(&mut t, id);
        self.endpoints = t;
        r
    }

    /// The endpoint under `id`, if any.
    pub fn get(&self, id: &str) -> (r: Option<AiEndpoint>)
        ensures
            r === (if self.endpoints().contains_key(id@) { Some(self.endpoints()[id@]) } else { None }),
    {
        table_get(&self.endpoints, id)
    }

    /// Whether an endpoint is kept under `id`.
    pub fn contains(&self, id: &str) -> (r: bool)
        ensures
            r == self.endpoints().contains_key(id@),
    {
        table_contains(&self.endpoints, id)
    }

    /// The number of known endpoints.
    pub fn len(&self) -> (r: usize)
        ensures
            r == self.endpoints().dom().len(),
    {
        table_len(&self.endpoints)
    }

    /// Whether no endpoint is known.
    pub fn is_empty(&self) -> (r: bool)
        ensures
            r == (self.endpoints().dom().len() == 0),
    {
        table_len(&self.endpoints) == 0
    }

    /// Every known endpoint once, with its id, in the table's own order.
    pub fn entries(&self) -> (r: Vec<(String, AiEndpoint)>)
        ensures
            r@.len() == self.endpoints().dom().len(),
            lists_table(r@, self.endpoints()),
            forall|i: int| 0 <= i < r@.len() ==> (#[trigger] r@[i]).1.id@ == r@[i].0@,
    {
        proof {
            use_type_invariant(self);
        }
        let r = table_entries(&self.endpoints);
        proof {
            assert forall|i: int| 0 <= i < r@.len() implies (#[trigger] r@[i]).1.id@ == r@[i].0@ by {
                assert(endpoint_table(self.endpoints).contains_key(r@[i].0@));
            }
        }
        r
    }

    /// Records a probe of the endpoint under `id` at `now` that took
    /// `latency_ms` and ended with `outcome`. Nothing changes when no
    /// endpoint is kept there, or when its failure count is at its largest
    /// value and the probe failed; the result says whether the probe was
    /// recorded.
    pub fn record_probe_at(&mut self, id: &str, outcome: ProbeOutcome, latency_ms: u64, now: i64) -> (recorded: bool)
        ensures
            recorded == (old(self).endpoints().contains_key(id@) && can_record(old(self).endpoints()[id@].health, outcome)),
            recorded ==> final(self).endpoints() === old(self).endpoints().insert(
                id@,
                AiEndpoint { health: probed(old(self).endpoints()[id@].health, outcome, latency_ms, now), ..old(self).endpoints()[id@] },
            ),
            !recorded ==> final(self).endpoints() === old(self).endpoints(),
    {
        proof {
            use_type_invariant(&*self);
        }
        match table_get(&self.endpoints, id) {
            None => false,
            Some(ep) => {
                let at_limit = match &outcome {
                    ProbeOutcome::Success => false,
                    ProbeOutcome::Failure(_) => ep.health.consecutive_failures == u32::MAX,
                };
                if at_limit {
                    return false;
                }
                let mut ep = ep;
                ep.health.record_probe_at(outcome, latency_ms, now);
                let key = ep.id.clone();
                let mut t = table_new();
                std::mem::swap(&mut t, &mut self.endpoints);
                table_insert(&mut t, key, ep);
                self.endpoints = t;
                true
            }
        }
    }

    /// Removes every endpoint whose id is in `ids`.
    pub fn remove_all(&mut self, ids: &Vec<String>)
        ensures
            final(self).endpoints() === old(self).endpoints().remove_keys(text_set(ids@)),
    {
        let ghost start = self.endpoints();
        let mut i: usize = 0;
        proof {
            assert(start.remove_keys(text_set(ids@.subrange(0, 0))) =~= start);
        }
        while i < ids.len()
            invariant
                i <= ids@.len(),
                self.endpoints() === start.remove_keys(text_set(ids@.subrange(0, i as int))),
            decreases ids@.len() - i,
        {
            let ghost before = self.endpoints();
            self.remove(ids[i].as_str());
            proof {
                let s0 = ids@.subrange(0, i as int);
                let s1 = ids@.subrange(0, i + 1);
                assert(s1 =~= s0.push(ids@[i as int]));
                assert(text_set(s1) =~= text_set(s0).insert(ids@[i as int]@)) by {
                    let v0 = s0.map_values(|s: String| s@);
                    assert(s1.map_values(|s: String| s@) =~= v0 + seq![ids@[i as int]@]);
                    Seq::lemma_to_set_insert_commutes(v0, ids@[i as int]@);
                }
                assert(self.endpoints() =~= start.remove_keys(text_set(s1)));
            }
            i = i + 1;
        }
        proof {
            assert(ids@.subrange(0, ids@.len() as int) =~= ids@);
        }
    }
}

} // verus!

//! Discovery of AI services on well-known local ports.
//!
//! The caller sends the health requests; this module says where to send
//! them, what a service that answered is taken for, and how the endpoint
//! table changes after a scan.
use vstd::prelude::*;
use crate::ai::endpoints::{
    AiEndpoint, EndpointHealth, EndpointType, UNIT_WEIGHT_BITS, fresh_health,
};
use crate::ai::table::{EndpointTable, lists_table, text_set, distinct_texts_count};
use crate::config::DiscoveryConfig;
use crate::text::{concat2, concat3, contains, decimal, decimal_text, has_substring, same_text};

verus! {

/// The address a service on local port `port` is reached at.
pub open spec fn local_url(port: u16) -> Seq<char> {
    "http://127.0.0.1:"@ + decimal(port as nat)
}

/// The address a service on local port `port` is reached at.
pub fn scan_url(port: u16) -> (r: String)
    ensures
        r@ == local_url(port),
{
    let p = decimal_text(port as u64);
    concat2("http://127.0.0.1:", p.as_str())
}

/// The health addresses tried, in order, on a service at `url`.
pub fn health_candidates(url: &str) -> (r: Vec<String>)
    ensures
        r@.len() == 3,
        r@[0]@ == url@ + "/health"@,
        r@[1]@ == url@ + "/v1/health"@,
        r@[2]@ == url@ + "/api/health"@,
{
    let mut r: Vec<String> = Vec::new();
    r.push(concat2(url, "/health"));
    r.push(concat2(url, "/v1/health"));
    r.push(concat2(url, "/api/health"));
    r
}

/// The name and type a service that answered at `url` is taken for, by
/// the port written in the address.
pub open spec fn inferred_service(url: Seq<char>) -> (Seq<char>, EndpointType) {
    if contains(url, ":8080"@) {
        ("routage"@, EndpointType::Router)
    } else if contains(url, ":7777"@) {
        ("merlin"@, EndpointType::Router)
    } else if contains(url, ":8000"@) {
        ("local-ai"@, EndpointType::Inference)
    } else if contains(url, ":11434"@) {
        ("ollama"@, EndpointType::Inference)
    } else if contains(url, ":3000"@) {
        ("tensorzero"@, EndpointType::Router)
    } else {
        ("unknown"@, EndpointType::Api)
    }
}

/// The name and type a service that answered at `url` is taken for.
pub fn infer_service(url: &str) -> (r: (String, EndpointType))
    ensures
        (r.0@, r.1) == inferred_service(url@),
{
    if has_substring(url, ":8080") {
        ("routage".to_string(), EndpointType::Router)
    } else if has_substring(url, ":7777") {
        ("merlin".to_string(), EndpointType::Router)
    } else if has_substring(url, ":8000") {
        ("local-ai".to_string(), EndpointType::Inference)
    } else if has_substring(url, ":11434") {
        ("ollama".to_string(), EndpointType::Inference)
    } else if has_substring(url, ":3000") {
        ("tensorzero".to_string(), EndpointType::Router)
    } else {
        ("unknown".to_string(), EndpointType::Api)
    }
}

/// Whether `tags` holds the tag `t`.
pub open spec fn has_tag(tags: Seq<String>, t: Seq<char>) -> bool {
    exists|i: int| 0 <= i < tags.len() && #[trigger] tags[i]@ == t
}

/// Whether `tags` holds the tag `t`.
pub fn tagged(tags: &Vec<String>, t: &str) -> (r: bool)
    ensures
        r == has_tag(tags@, t@),
{
    let mut i: usize = 0;
    while i < tags.len()
        invariant
            i <= tags@.len(),
            forall|j: int| 0 <= j < i ==> tags@[j]@ != t@,
        decreases tags@.len() - i,
    {
        if same_text(tags[i].as_str(), t) {
            return true;
        }
        i = i + 1;
    }
    false
}

/// Whether `ids` holds the id `k`.
pub open spec fn lists_id(ids: Seq<String>, k: Seq<char>) -> bool {
    exists|i: int| 0 <= i < ids.len() && #[trigger] ids[i]@ == k
}

/// The id of a service named `name` found on port `port`.
pub open spec fn found_id(name: Seq<char>, port: u16) -> Seq<char> {
    name + "-"@ + decimal(port as nat)
}

/// Whether `ep` is the endpoint recorded for a service named `name` of type
/// `t` found on local port `port` at `now`.
pub open spec fn is_found_endpoint(ep: AiEndpoint, name: Seq<char>, t: EndpointType, port: u16, now: i64) -> bool {
    &&& ep.id@ == found_id(name, port)
    &&& ep.name@ == name
    &&& ep.url@ == local_url(port)
    &&& ep.endpoint_type == t
    &&& ep.weight_bits == UNIT_WEIGHT_BITS
    &&& ep.tags@.len() == 1
    &&& ep.tags@[0]@ == "auto-discovered"@
    &&& ep.headers@.len() == 0
    &&& ep.health == fresh_health(now)
}

/// Whether the port scan owns endpoint `ep`, kept under `k`, and, not
/// having found it under an id in `found`, removes it: it was discovered by the
/// port scan, not by the Docker discovery.
pub open spec fn scan_drops(k: Seq<char>, ep: AiEndpoint, found: Seq<String>) -> bool {
    &&& has_tag(ep.tags@, "auto-discovered"@)
    &&& !has_tag(ep.tags@, "docker"@)
    &&& !lists_id(found, k)
}

/// The ids of the endpoints of `m` that the port scan drops after finding
/// the services in `found`.
pub open spec fn dropped_ids(m: Map<Seq<char>, AiEndpoint>, found: Seq<String>) -> Set<Seq<char>> {
    m.dom().filter(|k: Seq<char>| scan_drops(k, m[k], found))
}

/// The ids that the services in `found` receive, in order.
pub open spec fn found_ids(found: Seq<(u16, String, EndpointType)>) -> Seq<Seq<char>> {
    found.map_values(|f: (u16, String, EndpointType)| found_id(f.1@, f.0))
}

/// Whether entry `j` of `found` is the first to receive id `k`.
pub open spec fn first_with_id(found: Seq<(u16, String, EndpointType)>, j: int, k: Seq<char>) -> bool {
    &&& 0 <= j < found.len()
    &&& found_id(found[j].1@, found[j].0) == k
    &&& forall|l: int| 0 <= l < j ==> found_id(found[l].1@, found[l].0) != k
}

/// Whether `after` is the endpoint table that a scan at `now` leaves when it
/// starts from `before` and finds the services in `found`, each as its
/// port, name and type: an endpoint that already had a found service's id
/// stays as it was; the first service found under a new id is recorded;
/// every endpoint whose id was not found stays, unless the port scan owns
/// it, in which case it is removed.
pub open spec fn scanned(
    before: Map<Seq<char>, AiEndpoint>,
    found: Seq<(u16, String, EndpointType)>,
    now: i64,
    after: Map<Seq<char>, AiEndpoint>,
) -> bool {
    &&& forall|k: Seq<char>| found_ids(found).contains(k) ==> #[trigger] after.contains_key(k)
    &&& forall|k: Seq<char>| found_ids(found).contains(k) && #[trigger] before.contains_key(k) ==> after[k] === before[k]
    &&& forall|k: Seq<char>, j: int| #[trigger] first_with_id(found, j, k) && !before.contains_key(k)
        ==> is_found_endpoint(after[k], found[j].1@, found[j].2, found[j].0, now)
    &&& forall|k: Seq<char>| !found_ids(found).contains(k) ==>
        (#[trigger] after.contains_key(k) <==> before.contains_key(k) && !(has_tag(before[k].tags@, "auto-discovered"@) && !has_tag(before[k].tags@, "docker"@)))
    &&& forall|k: Seq<char>| !found_ids(found).contains(k) && #[trigger] after.contains_key(k) ==> after[k] === before[k]
}

/// A port scan never removes an endpoint tagged `docker`: whatever it
/// finds, such an endpoint stays as it was.
pub proof fn port_scan_keeps_docker_endpoints(
    before: Map<Seq<char>, AiEndpoint>,
    found: Seq<(u16, String, EndpointType)>,
    now: i64,
    after: Map<Seq<char>, AiEndpoint>,
    k: Seq<char>,
)
    requires
        scanned(before, found, now, after),
        before.contains_key(k),
        has_tag(before[k].tags@, "docker"@),
    ensures
        after.contains_key(k),
        after[k] === before[k],
{
    if found_ids(found).contains(k) {
        assert(after.contains_key(k));
    } else {
        assert(after.contains_key(k));
    }
}

/// Auto-discovers AI services running on well-known ports.
#[derive(Debug)]
pub struct DiscoveryEngine {
    endpoints: EndpointTable,
    config: DiscoveryConfig,
}

impl DiscoveryEngine {
    /// The table the engine fills.
    pub closed spec fn table(&self) -> EndpointTable {
        self.endpoints
    }

    /// The engine's configuration.
    pub closed spec fn settings(&self) -> DiscoveryConfig {
        self.config
    }

    pub fn new(endpoints: EndpointTable, config: DiscoveryConfig) -> (r: Self)
        ensures
            r.table() == endpoints,
            r.settings() == config,
    {
        DiscoveryEngine { endpoints, config }
    }

    /// The table the engine fills.
    pub fn endpoints(&self) -> (r: &EndpointTable)
        ensures
            *r == self.table(),
    {
        &self.endpoints
    }

    /// Hands the table back.
    pub fn into_endpoints(self) -> (r: EndpointTable)
        ensures
            r == self.table(),
    {
        self.endpoints
    }

    /// The ports to scan, in order.
    pub fn scan_ports(&self) -> (r: &Vec<u16>)
        ensures
            r@ == self.settings().scan_ports@,
    {
        &self.config.scan_ports
    }

    /// Records a service named `name` of type `t` that answered on local
    /// port `port` at `now`, unless an endpoint already has its id; returns
    /// the id.
    pub fn record_found_at(&mut self, name: &str, t: EndpointType, port: u16, now: i64) -> (id: String)
        ensures
            id@ == found_id(name@, port),
            final(self).settings() == old(self).settings(),
            old(self).table().endpoints().contains_key(id@) ==> final(self).table().endpoints() === old(self).table().endpoints(),
            !old(self).table().endpoints().contains_key(id@) ==> {
                &&& final(self).table().endpoints().dom() == old(self).table().endpoints().dom().insert(id@)
                &&& forall|k: Seq<char>| k != id@ && #[trigger] old(self).table().endpoints().contains_key(k)
                    ==> final(self).table().endpoints()[k] === old(self).table().endpoints()[k]
                &&& is_found_endpoint(final(self).table().endpoints()[id@], name@, t, port, now)
            },
    {
        let p = decimal_text(port as u64);
        let id = concat3(name, "-", p.as_str());
        if !self.endpoints.contains(id.as_str()) {
            let mut tags: Vec<String> = Vec::new();
            tags.push("auto-discovered".to_string());
            let ep = AiEndpoint {
                id: id.clone(),
                name: name.to_string(),
                url: scan_url(port),
                endpoint_type: t,
                weight_bits: UNIT_WEIGHT_BITS,
                tags,
                headers: Vec::new(),
                health: EndpointHealth::fresh_at(now),
            };
            self.endpoints.insert(ep);
        }
        id
    }

    /// Removes the endpoints that the port scan owns and did not find under
    /// an id in `found`.
    pub fn prune_stale(&mut self, found: &Vec<String>)
        ensures
            final(self).settings() == old(self).settings(),
            final(self).table().endpoints() === old(self).table().endpoints().remove_keys(
                dropped_ids(old(self).table().endpoints(), found@),
            ),
    {
        let entries = self.endpoints.entries();
        let ghost m = self.endpoints.endpoints();
        let ghost es = entries@;
        let mut to_remove: Vec<String> = Vec::new();
        let mut i: usize = 0;
        while i < entries.len()
            invariant
                i <= es.len(),
                entries@ == es,
                lists_table(es, m),
                forall|j: int| 0 <= j < es.len() ==> (#[trigger] es[j]).1.id@ == es[j].0@,
                forall|a: int| #![trigger to_remove@[a]] 0 <= a < to_remove@.len() ==> exists|j: int| 0 <= j < i && #[trigger] es[j].0@ == to_remove@[a]@
                    && scan_drops(es[j].0@, es[j].1, found@),
                forall|j: int| 0 <= j < i && scan_drops(es[j].0@, #[trigger] es[j].1, found@)
                    ==> exists|a: int| 0 <= a < to_remove@.len() && to_remove@[a]@ == es[j].0@,
            decreases es.len() - i,
        {
            let ep = &entries[i].1;
            let owned = tagged(&ep.tags, "auto-discovered") && !tagged(&ep.tags, "docker");
            if owned && !listed(found, entries[i].0.as_str()) {
                let ghost before = to_remove@;
                to_remove.push(entries[i].0.clone());
                proof {
                    assert forall|a: int| #![trigger to_remove@[a]] 0 <= a < to_remove@.len() implies exists|j: int| 0 <= j < i + 1 && #[trigger] es[j].0@ == to_remove@[a]@
                        && scan_drops(es[j].0@, es[j].1, found@) by {
                        if a < before.len() {
                            assert(to_remove@[a] == before[a]);
                        } else {
                            assert(es[i as int].0@ == to_remove@[a]@);
                        }
                    }
                    assert forall|j: int| 0 <= j < i + 1 && scan_drops(es[j].0@, #[trigger] es[j].1, found@)
                        implies exists|a: int| 0 <= a < to_remove@.len() && to_remove@[a]@ == es[j].0@ by {
                        if j < i {
                            let a = choose|a: int| 0 <= a < before.len() && before[a]@ == es[j].0@;
                            assert(to_remove@[a] == before[a]);
                        } else {
                            assert(to_remove@[before.len() as int]@ == es[j].0@);
                        }
                    }
                }
            }
            i = i + 1;
        }
        proof {
            assert(text_set(to_remove@) =~= dropped_ids(m, found@)) by {
                assert forall|k: Seq<char>| #[trigger] text_set(to_remove@).contains(k) implies dropped_ids(m, found@).contains(k) by {
                    let v = to_remove@.map_values(|s: String| s@);
                    let a = choose|a: int| 0 <= a < v.len() && v[a] == k;
                    assert(to_remove@[a]@ == k);
                    let j = choose|j: int| 0 <= j < i && #[trigger] es[j].0@ == to_remove@[a]@ && scan_drops(es[j].0@, es[j].1, found@);
                    assert(m.contains_key(es[j].0@));
                }
                assert forall|k: Seq<char>| #[trigger] dropped_ids(m, found@).contains(k) implies text_set(to_remove@).contains(k) by {
                    let j = choose|j: int| 0 <= j < es.len() && es[j].0@ == k;
                    assert(scan_drops(es[j].0@, es[j].1, found@));
                    let a = choose|a: int| 0 <= a < to_remove@.len() && to_remove@[a]@ == es[j].0@;
                    let v = to_remove@.map_values(|s: String| s@);
                    assert(v[a] == k);
                }
            }
        }
        self.endpoints.remove_all(&to_remove);
    }

    /// Completes a scan at `now` that found the services in `found`, each as
    /// the port it answered on, its name and its type: records each, then
    /// removes the endpoints the port scan owns and did not find.
    pub fn complete_scan_at(&mut self, found: &Vec<(u16, String, EndpointType)>, now: i64)
        ensures
            final(self).settings() == old(self).settings(),
            scanned(old(self).table().endpoints(), found@, now, final(self).table().endpoints()),
    {
        let ghost m0 = self.endpoints.endpoints();
        let ghost fs = found@;
        let mut ids: Vec<String> = Vec::new();
        let mut i: usize = 0;
        while i < found.len()
            invariant
                i <= fs.len(),
                found@ == fs,
                self.settings() == old(self).settings(),
                ids@.len() == i,
                forall|j: int| 0 <= j < i ==> (#[trigger] ids@[j])@ == found_id(fs[j].1@, fs[j].0),
                forall|k: Seq<char>| #[trigger] self.table().endpoints().contains_key(k) <==>
                    m0.contains_key(k) || exists|j: int| 0 <= j < i && found_id(fs[j].1@, fs[j].0) == k,
                forall|k: Seq<char>| #[trigger] m0.contains_key(k) ==> self.table().endpoints()[k] === m0[k],
                forall|k: Seq<char>, j: int| #[trigger] first_with_id(fs, j, k) && j < i && !m0.contains_key(k)
                    ==> is_found_endpoint(self.table().endpoints()[k], fs[j].1@, fs[j].2, fs[j].0, now),
            decreases fs.len() - i,
        {
            let ghost before = self.table().endpoints();
            let id = self.record_found_at(found[i].1.as_str(), found[i].2, found[i].0, now);
            ids.push(id);
            proof {
                assert forall|k: Seq<char>| #[trigger] m0.contains_key(k) implies self.table().endpoints()[k] === m0[k] by {
                    assert(before.contains_key(k));
                }
                let k0 = found_id(fs[i as int].1@, fs[i as int].0);
                assert forall|k: Seq<char>| #[trigger] self.table().endpoints().contains_key(k) <==>
                    m0.contains_key(k) || exists|j: int| 0 <= j < i + 1 && found_id(fs[j].1@, fs[j].0) == k by {
                    if k == k0 {
                        assert(found_id(fs[i as int].1@, fs[i as int].0) == k);
                    } else if exists|j: int| 0 <= j < i + 1 && found_id(fs[j].1@, fs[j].0) == k {
                        let j = choose|j: int| 0 <= j < i + 1 && found_id(fs[j].1@, fs[j].0) == k;
                        assert(j < i);
                    }
                }
                assert forall|k: Seq<char>, j: int| #[trigger] first_with_id(fs, j, k) && j < i + 1 && !m0.contains_key(k)
                    implies is_found_endpoint(self.table().endpoints()[k], fs[j].1@, fs[j].2, fs[j].0, now) by {
                    if j == i {
                        assert(!before.contains_key(k)) by {
                            if before.contains_key(k) {
                                let l = choose|l: int| 0 <= l < i && found_id(fs[l].1@, fs[l].0) == k;
                            }
                        }
                    } else {
                        assert(before.contains_key(k)) by {
                            assert(found_id(fs[j].1@, fs[j].0) == k);
                        }
                    }
                }
            }
            i = i + 1;
        }
        let ghost m1 = self.table().endpoints();
        self.prune_stale(&ids);
        proof {
            let m2 = self.table().endpoints();
            assert(ids@.len() == fs.len());
            assert forall|k: Seq<char>| lists_id(ids@, k) <==> found_ids(fs).contains(k) by {
                if lists_id(ids@, k) {
                    let a = choose|a: int| 0 <= a < ids@.len() && #[trigger] ids@[a]@ == k;
                    assert(found_ids(fs)[a] == k);
                }
                if found_ids(fs).contains(k) {
                    let a = choose|a: int| 0 <= a < found_ids(fs).len() && found_ids(fs)[a] == k;
                    assert(ids@[a]@ == k);
                }
            }
            assert forall|k: Seq<char>| found_ids(fs).contains(k) implies #[trigger] m2.contains_key(k) by {
                let a = choose|a: int| 0 <= a < found_ids(fs).len() && found_ids(fs)[a] == k;
                assert(found_id(fs[a].1@, fs[a].0) == k);
                assert(m1.contains_key(k));
                assert(lists_id(ids@, k));
                assert(!dropped_ids(m1, ids@).contains(k));
            }
            assert forall|k: Seq<char>| found_ids(fs).contains(k) && #[trigger] m0.contains_key(k) implies m2[k] === m0[k] by {
                assert(lists_id(ids@, k));
                assert(!dropped_ids(m1, ids@).contains(k));
            }
            assert forall|k: Seq<char>, j: int| #[trigger] first_with_id(fs, j, k) && !m0.contains_key(k)
                implies is_found_endpoint(m2[k], fs[j].1@, fs[j].2, fs[j].0, now) by {
                assert(found_ids(fs)[j] == k);
                assert(lists_id(ids@, k));
                assert(m1.contains_key(k));
                assert(!dropped_ids(m1, ids@).contains(k));
            }
            assert forall|k: Seq<char>| !found_ids(fs).contains(k) implies
                (#[trigger] m2.contains_key(k) <==> m0.contains_key(k) && !(has_tag(m0[k].tags@, "auto-discovered"@) && !has_tag(m0[k].tags@, "docker"@))) by {
                assert(!lists_id(ids@, k));
                if exists|j: int| 0 <= j < fs.len() && found_id(fs[j].1@, fs[j].0) == k {
                    let j = choose|j: int| 0 <= j < fs.len() && found_id(fs[j].1@, fs[j].0) == k;
                    assert(found_ids(fs)[j] == k);
                }
                if m0.contains_key(k) {
                    assert(m1[k] === m0[k]);
                }
            }
            assert forall|k: Seq<char>| !found_ids(fs).contains(k) && #[trigger] m2.contains_key(k) implies m2[k] === m0[k] by {
                if exists|j: int| 0 <= j < fs.len() && found_id(fs[j].1@, fs[j].0) == k {
                    let j = choose|j: int| 0 <= j < fs.len() && found_id(fs[j].1@, fs[j].0) == k;
                    assert(found_ids(fs)[j] == k);
                }
            }
        }
    }
}

/// Whether `ids` holds the id `k`.
pub fn listed(ids: &Vec<String>, k: &str) -> (r: bool)
    ensures
        r == lists_id(ids@, k@),
{
    let mut i: usize = 0;
    while i < ids.len()
        invariant
            i <= ids@.len(),
            forall|j: int| 0 <= j < i ==> ids@[j]@ != k@,
        decreases ids@.len() - i,
    {
        if same_text(ids[i].as_str(), k) {
            return true;
        }
        i = i + 1;
    }
    false
}

} // verus!

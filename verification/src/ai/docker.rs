//! Discovery of AI services running as Docker containers.
//!
//! The caller lists the running containers; this module reads their
//! labels, decides the endpoint each labelled container stands for, and
//! updates the endpoint table.
use vstd::prelude::*;
use crate::ai::discovery::{has_tag, lists_id, listed, local_url, scan_url, tagged};
use crate::ai::endpoints::{
    AiEndpoint, EndpointHealth, EndpointType, UNIT_WEIGHT_BITS, endpoint_type_named, fresh_health,
};
use crate::ai::table::{EndpointTable, lists_table, text_set};
use crate::config::DiscoveryConfig;
use crate::message::{get_header, header_value, header_view};
use crate::text::{concat2, concat3, parse_decimal, parse_unsigned};

verus! {

/// What the discovery reads of a running container: its id, its labels
/// (each name once) and the public port of each of its published ports.
#[derive(Debug, Clone)]
pub struct ContainerInfo {
    pub id: Option<String>,
    pub labels: Vec<(String, String)>,
    pub ports: Option<Vec<Option<u16>>>,
}

/// The label that names the AI service a container runs.
pub open spec fn service_label() -> Seq<char> {
    "ai.xfiles.service"@
}

/// The value of label `key` of container `c`, if it has one.
pub open spec fn label(c: ContainerInfo, key: Seq<char>) -> Option<Seq<char>> {
    header_value(header_view(c.labels@), key)
}

/// The public port of the first published port, if there is one and it
/// has a public port.
pub open spec fn first_public_port(ports: Option<Vec<Option<u16>>>) -> Option<u16> {
    match ports {
        Some(v) => if v@.len() > 0 { v@[0] } else { None },
        None => None,
    }
}

/// The port the service of container `c` listens on: the `ai.xfiles.port`
/// label when it reads as a port number, else the first public port, else
/// 8080.
pub open spec fn container_port(c: ContainerInfo) -> u16 {
    let labelled = match label(c, "ai.xfiles.port"@) {
        Some(v) => parse_unsigned(v, 65535),
        None => None,
    };
    match labelled {
        Some(p) => p as u16,
        None => match first_public_port(c.ports) {
            Some(p) => p,
            None => 8080,
        },
    }
}

/// The first twelve characters of the container's id (all of it when it is
/// shorter, nothing when it has none).
pub open spec fn short_id(c: ContainerInfo) -> Seq<char> {
    let id = match c.id {
        Some(s) => s@,
        None => Seq::empty(),
    };
    if id.len() <= 12 { id } else { id.subrange(0, 12) }
}

/// The id of the endpoint that container `c` stands for, if it names an
/// AI service.
pub open spec fn container_endpoint_id(c: ContainerInfo) -> Option<Seq<char>> {
    match label(c, service_label()) {
        Some(s) => Some("docker-"@ + s + "-"@ + short_id(c)),
        None => None,
    }
}

/// Whether `ep` is the endpoint recorded at `now` for container `c`, which
/// names the AI service `s`.
pub open spec fn is_container_endpoint(ep: AiEndpoint, c: ContainerInfo, s: Seq<char>, now: i64) -> bool {
    let kind_name = match label(c, "ai.xfiles.type"@) {
        Some(t) => t,
        None => "api"@,
    };
    &&& ep.id@ == "docker-"@ + s + "-"@ + short_id(c)
    &&& ep.name@ == "docker-"@ + s
    &&& ep.url@ == local_url(container_port(c))
    &&& ep.endpoint_type == (match endpoint_type_named(kind_name) {
        Some(t) => t,
        None => EndpointType::Api,
    })
    &&& ep.weight_bits == UNIT_WEIGHT_BITS
    &&& ep.tags@.len() == 2
    &&& ep.tags@[0]@ == "docker"@
    &&& ep.tags@[1]@ == "auto-discovered"@
    &&& ep.headers@.len() == 0
    &&& ep.health == fresh_health(now)
}

/// The public port of the first published port, if there is one and it
/// has a public port.
pub fn extract_first_port(ports: &Option<Vec<Option<u16>>>) -> (r: Option<u16>)
    ensures
        r == first_public_port(*ports),
{
    match ports {
        Some(v) => if v.len() > 0 { v[0] } else { None },
        None => None,
    }
}

/// The port the service of container `c` listens on.
pub fn service_port(c: &ContainerInfo) -> (r: u16)
    ensures
        r == container_port(*c),
{
    let labelled = match get_header(&c.labels, "ai.xfiles.port") {
        Some(v) => parse_decimal(v.as_str(), 65535),
        None => None,
    };
    match labelled {
        Some(p) => p as u16,
        None => match extract_first_port(&c.ports) {
            Some(p) => p,
            None => 8080,
        },
    }
}

/// The first twelve characters of the container's id.
pub fn short_container_id(c: &ContainerInfo) -> (r: String)
    ensures
        r@ == short_id(*c),
{
    match &c.id {
        Some(s) => {
            let n = crate::text::chars_of(s.as_str()).len();
            if n <= 12 {
                s.clone()
            } else {
                String::from_str(s.as_str().substring_char(0, 12))
            }
        }
        None => String::new(),
    }
}

/// The endpoint that container `c` stands for at `now`, if it names an AI
/// service.
pub fn container_endpoint(c: &ContainerInfo, now: i64) -> (r: Option<AiEndpoint>)
    ensures
        r is None <==> container_endpoint_id(*c) is None,
        r matches Some(ep) ==> is_container_endpoint(ep, *c, label(*c, service_label())->0, now),
{
    let service = match get_header(&c.labels, "ai.xfiles.service") {
        Some(s) => s,
        None => {
            return None;
        }
    };
    let kind_name = match get_header(&c.labels, "ai.xfiles.type") {
        Some(t) => t,
        None => "api".to_string(),
    };
    let short = short_container_id(c);
    let id = concat3(concat2("docker-", service.as_str()).as_str(), "-", short.as_str());
    let endpoint_type = match EndpointType::parse(kind_name.as_str()) {
        Ok(t) => t,
        Err(_) => EndpointType::Api,
    };
    let mut tags: Vec<String> = Vec::new();
    tags.push("docker".to_string());
    tags.push("auto-discovered".to_string());
    Some(AiEndpoint {
        id,
        name: concat2("docker-", service.as_str()),
        url: scan_url(service_port(c)),
        endpoint_type,
        weight_bits: UNIT_WEIGHT_BITS,
        tags,
        headers: Vec::new(),
        health: EndpointHealth::fresh_at(now),
    })
}

/// Whether the Docker discovery removes endpoint `ep`, kept under `k`, after
/// finding the endpoints with ids in `found`: it is a Docker endpoint that
/// was not found.
pub open spec fn docker_drops(k: Seq<char>, ep: AiEndpoint, found: Seq<String>) -> bool {
    has_tag(ep.tags@, "docker"@) && !lists_id(found, k)
}

/// The ids of the endpoints of `m` that the Docker discovery removes after
/// finding the endpoints with ids in `found`.
pub open spec fn docker_dropped_ids(m: Map<Seq<char>, AiEndpoint>, found: Seq<String>) -> Set<Seq<char>> {
    m.dom().filter(|k: Seq<char>| docker_drops(k, m[k], found))
}

/// Whether some container of `cs` stands for the endpoint with id `k`.
pub open spec fn found_in(cs: Seq<ContainerInfo>, k: Seq<char>) -> bool {
    exists|i: int| 0 <= i < cs.len() && #[trigger] container_endpoint_id(cs[i]) == Some(k)
}

/// Whether container `j` of `cs` is the first to stand for the endpoint
/// with id `k`.
pub open spec fn first_container(cs: Seq<ContainerInfo>, j: int, k: Seq<char>) -> bool {
    &&& 0 <= j < cs.len()
    &&& container_endpoint_id(cs[j]) == Some(k)
    &&& forall|l: int| 0 <= l < j ==> container_endpoint_id(cs[l]) != Some(k)
}

/// Whether `after` is the endpoint table that a Docker scan at `now` leaves
/// when it starts from `before` and lists the containers `cs`: an endpoint
/// that already had the id of a labelled container stays as it was; the
/// first container that stands for a new id is recorded; every Docker
/// endpoint whose id was not found is removed, and the other endpoints stay.
pub open spec fn docker_scanned(
    before: Map<Seq<char>, AiEndpoint>,
    cs: Seq<ContainerInfo>,
    now: i64,
    after: Map<Seq<char>, AiEndpoint>,
) -> bool {
    &&& forall|k: Seq<char>| found_in(cs, k) ==> #[trigger] after.contains_key(k)
    &&& forall|k: Seq<char>| found_in(cs, k) && #[trigger] before.contains_key(k) ==> after[k] === before[k]
    &&& forall|k: Seq<char>, j: int| #[trigger] first_container(cs, j, k) && !before.contains_key(k)
        ==> is_container_endpoint(after[k], cs[j], label(cs[j], service_label())->0, now)
    &&& forall|k: Seq<char>| !found_in(cs, k) ==>
        (#[trigger] after.contains_key(k) <==> before.contains_key(k) && !has_tag(before[k].tags@, "docker"@))
    &&& forall|k: Seq<char>| !found_in(cs, k) && #[trigger] after.contains_key(k) ==> after[k] === before[k]
}

/// Discovers AI services running as Docker containers.
#[derive(Debug)]
pub struct DockerDiscovery {
    endpoints: EndpointTable,
    config: DiscoveryConfig,
}

impl DockerDiscovery {
    /// The table the discovery fills.
    pub closed spec fn table(&self) -> EndpointTable {
        self.endpoints
    }

    /// The discovery's configuration.
    pub closed spec fn settings(&self) -> DiscoveryConfig {
        self.config
    }

    pub fn new(endpoints: EndpointTable, config: DiscoveryConfig) -> (r: Self)
        ensures
            r.table() == endpoints,
            r.settings() == config,
    {
        DockerDiscovery { endpoints, config }
    }

    /// The table the discovery fills.
    pub fn endpoints(&self) -> (r: &EndpointTable)
        ensures
            *r == self.table(),
    {
        &self.endpoints
    }

    /// Hands the table back.
    pub fn into_endpoints(self) -> (r: EndpointTable)
        ensures
            r == self.table(),
    {
        self.endpoints
    }

    /// Removes the Docker endpoints whose ids are not in `found`.
    pub fn prune_stale(&mut self, found: &Vec<String>)
        ensures
            final(self).settings() == old(self).settings(),
            final(self).table().endpoints() === old(self).table().endpoints().remove_keys(
                docker_dropped_ids(old(self).table().endpoints(), found@),
            ),
    {
        let entries = self.endpoints.entries();
        let ghost m = self.endpoints.endpoints();
        let ghost es = entries@;
        let mut to_remove: Vec<String> = Vec::new();
        let mut i: usize = 0;
        while i < entries.len()
            invariant
                i <= es.len(),
                entries@ == es,
                lists_table(es, m),
                forall|a: int| #![trigger to_remove@[a]] 0 <= a < to_remove@.len() ==> exists|j: int| 0 <= j < i && #[trigger] es[j].0@ == to_remove@[a]@
                    && docker_drops(es[j].0@, es[j].1, found@),
                forall|j: int| 0 <= j < i && docker_drops(es[j].0@, #[trigger] es[j].1, found@)
                    ==> exists|a: int| 0 <= a < to_remove@.len() && to_remove@[a]@ == es[j].0@,
            decreases es.len() - i,
        {
            if tagged(&entries[i].1.tags, "docker") && !listed(found, entries[i].0.as_str()) {
                let ghost before = to_remove@;
                to_remove.push(entries[i].0.clone());
                proof {
                    assert forall|a: int| #![trigger to_remove@[a]] 0 <= a < to_remove@.len() implies exists|j: int| 0 <= j < i + 1 && #[trigger] es[j].0@ == to_remove@[a]@
                        && docker_drops(es[j].0@, es[j].1, found@) by {
                        if a < before.len() {
                            assert(to_remove@[a] == before[a]);
                        } else {
                            assert(es[i as int].0@ == to_remove@[a]@);
                        }
                    }
                    assert forall|j: int| 0 <= j < i + 1 && docker_drops(es[j].0@, #[trigger] es[j].1, found@)
                        implies exists|a: int| 0 <= a < to_remove@.len() && to_remove@[a]@ == es[j].0@ by {
                        if j < i {
                            let a = choose|a: int| 0 <= a < before.len() && before[a]@ == es[j].0@;
                            assert(to_remove@[a] == before[a]);
                        } else {
                            assert(to_remove@[before.len() as int]@ == es[j].0@);
                        }
                    }
                }
            }
            i = i + 1;
        }
        proof {
            assert(text_set(to_remove@) =~= docker_dropped_ids(m, found@)) by {
                assert forall|k: Seq<char>| #[trigger] text_set(to_remove@).contains(k) implies docker_dropped_ids(m, found@).contains(k) by {
                    let v = to_remove@.map_values(|s: String| s@);
                    let a = choose|a: int| 0 <= a < v.len() && v[a] == k;
                    assert(to_remove@[a]@ == k);
                    let j = choose|j: int| 0 <= j < i && #[trigger] es[j].0@ == to_remove@[a]@ && docker_drops(es[j].0@, es[j].1, found@);
                    assert(m.contains_key(es[j].0@));
                }
                assert forall|k: Seq<char>| #[trigger] docker_dropped_ids(m, found@).contains(k) implies text_set(to_remove@).contains(k) by {
                    let j = choose|j: int| 0 <= j < es.len() && es[j].0@ == k;
                    assert(docker_drops(es[j].0@, es[j].1, found@));
                    let a = choose|a: int| 0 <= a < to_remove@.len() && to_remove@[a]@ == es[j].0@;
                    let v = to_remove@.map_values(|s: String| s@);
                    assert(v[a] == k);
                }
            }
        }
        self.endpoints.remove_all(&to_remove);
    }
    /// Completes a scan at `now` that listed the running containers `cs`:
    /// records the endpoint of each labelled container not yet known, then
    /// removes the Docker endpoints that no container stands for.
    pub fn complete_scan_at(&mut self, cs: &Vec<ContainerInfo>, now: i64)
        ensures
            final(self).settings() == old(self).settings(),
            docker_scanned(old(self).table().endpoints(), cs@, now, final(self).table().endpoints()),
    {
        let ghost m0 = self.endpoints.endpoints();
        let ghost seen = cs@;
        let mut ids: Vec<String> = Vec::new();
        let mut i: usize = 0;
        while i < cs.len()
            invariant
                i <= seen.len(),
                cs@ == seen,
                self.settings() == old(self).settings(),
                forall|a: int| #![trigger ids@[a]] 0 <= a < ids@.len() ==> exists|j: int| 0 <= j < i && #[trigger] container_endpoint_id(seen[j]) == Some(ids@[a]@),
                forall|j: int| 0 <= j < i && (#[trigger] container_endpoint_id(seen[j])) is Some
                    ==> lists_id(ids@, container_endpoint_id(seen[j])->0),
                forall|k: Seq<char>| #[trigger] self.table().endpoints().contains_key(k) <==>
                    m0.contains_key(k) || exists|j: int| 0 <= j < i && container_endpoint_id(seen[j]) == Some(k),
                forall|k: Seq<char>| #[trigger] m0.contains_key(k) ==> self.table().endpoints()[k] === m0[k],
                forall|k: Seq<char>, j: int| #[trigger] first_container(seen, j, k) && j < i && !m0.contains_key(k)
                    ==> is_container_endpoint(self.table().endpoints()[k], seen[j], label(seen[j], service_label())->0, now),
            decreases seen.len() - i,
        {
            let ghost before = self.table().endpoints();
            let ghost ids_before = ids@;
            match container_endpoint(&cs[i], now) {
                Some(ep) => {
                    let id = ep.id.clone();
                    ids.push(id.clone());
                    if !self.endpoints.contains(id.as_str()) {
                        self.endpoints.insert(ep);
                    }
                    proof {
                        let k0 = id@;
                        assert(container_endpoint_id(seen[i as int]) == Some(k0));
                        assert forall|a: int| #![trigger ids@[a]] 0 <= a < ids@.len() implies exists|j: int| 0 <= j < i + 1 && #[trigger] container_endpoint_id(seen[j]) == Some(ids@[a]@) by {
                            if a < ids_before.len() {
                                assert(ids@[a] == ids_before[a]);
                            } else {
                                assert(container_endpoint_id(seen[i as int]) == Some(ids@[a]@));
                            }
                        }
                        assert forall|j: int| 0 <= j < i + 1 && (#[trigger] container_endpoint_id(seen[j])) is Some
                            implies lists_id(ids@, container_endpoint_id(seen[j])->0) by {
                            if j < i {
                                let a = choose|a: int| 0 <= a < ids_before.len() && #[trigger] ids_before[a]@ == container_endpoint_id(seen[j])->0;
                                assert(ids@[a] == ids_before[a]);
                            } else {
                                assert(ids@[ids_before.len() as int]@ == k0);
                            }
                        }
                        assert forall|k: Seq<char>| #[trigger] m0.contains_key(k) implies self.table().endpoints()[k] === m0[k] by {
                            assert(before.contains_key(k));
                        }
                        assert forall|k: Seq<char>| #[trigger] self.table().endpoints().contains_key(k) <==>
                            m0.contains_key(k) || exists|j: int| 0 <= j < i + 1 && container_endpoint_id(seen[j]) == Some(k) by {
                            if k == k0 {
                                assert(container_endpoint_id(seen[i as int]) == Some(k));
                            } else if exists|j: int| 0 <= j < i + 1 && container_endpoint_id(seen[j]) == Some(k) {
                                let j = choose|j: int| 0 <= j < i + 1 && container_endpoint_id(seen[j]) == Some(k);
                                assert(j < i);
                            }
                        }
                        assert forall|k: Seq<char>, j: int| #[trigger] first_container(seen, j, k) && j < i + 1 && !m0.contains_key(k)
                            implies is_container_endpoint(self.table().endpoints()[k], seen[j], label(seen[j], service_label())->0, now) by {
                            if j == i {
                                assert(k == k0);
                                assert(!before.contains_key(k)) by {
                                    if before.contains_key(k) {
                                        let l = choose|l: int| 0 <= l < i && container_endpoint_id(seen[l]) == Some(k);
                                    }
                                }
                            } else {
                                assert(before.contains_key(k)) by {
                                    assert(container_endpoint_id(seen[j]) == Some(k));
                                }
                            }
                        }
                    }
                }
                None => {
                    proof {
                        assert forall|j: int| 0 <= j < i + 1 && (#[trigger] container_endpoint_id(seen[j])) is Some
                            implies lists_id(ids@, container_endpoint_id(seen[j])->0) by {
                        }
                        assert forall|k: Seq<char>| #[trigger] self.table().endpoints().contains_key(k) <==>
                            m0.contains_key(k) || exists|j: int| 0 <= j < i + 1 && container_endpoint_id(seen[j]) == Some(k) by {
                            if exists|j: int| 0 <= j < i + 1 && container_endpoint_id(seen[j]) == Some(k) {
                                let j = choose|j: int| 0 <= j < i + 1 && container_endpoint_id(seen[j]) == Some(k);
                                assert(j < i);
                            }
                        }
                        assert forall|k: Seq<char>, j: int| #[trigger] first_container(seen, j, k) && j < i + 1 && !m0.contains_key(k)
                            implies is_container_endpoint(self.table().endpoints()[k], seen[j], label(seen[j], service_label())->0, now) by {
                            assert(j != i);
                        }
                    }
                }
            }
            i = i + 1;
        }
        let ghost m1 = self.table().endpoints();
        self.prune_stale(&ids);
        proof {
            let m2 = self.table().endpoints();
            assert forall|k: Seq<char>| lists_id(ids@, k) <==> found_in(seen, k) by {
                if lists_id(ids@, k) {
                    let a = choose|a: int| 0 <= a < ids@.len() && #[trigger] ids@[a]@ == k;
                    let j = choose|j: int| 0 <= j < i && #[trigger] container_endpoint_id(seen[j]) == Some(ids@[a]@);
                }
                if found_in(seen, k) {
                    let j = choose|j: int| 0 <= j < seen.len() && #[trigger] container_endpoint_id(seen[j]) == Some(k);
                }
            }
            assert forall|k: Seq<char>| found_in(seen, k) implies #[trigger] m2.contains_key(k) by {
                let j = choose|j: int| 0 <= j < seen.len() && #[trigger] container_endpoint_id(seen[j]) == Some(k);
                assert(m1.contains_key(k));
                assert(!docker_dropped_ids(m1, ids@).contains(k));
            }
            assert forall|k: Seq<char>| found_in(seen, k) && #[trigger] m0.contains_key(k) implies m2[k] === m0[k] by {
                assert(!docker_dropped_ids(m1, ids@).contains(k));
            }
            assert forall|k: Seq<char>, j: int| #[trigger] first_container(seen, j, k) && !m0.contains_key(k)
                implies is_container_endpoint(m2[k], seen[j], label(seen[j], service_label())->0, now) by {
                assert(found_in(seen, k));
                assert(m1.contains_key(k));
                assert(!docker_dropped_ids(m1, ids@).contains(k));
            }
            assert forall|k: Seq<char>| !found_in(seen, k) implies
                (#[trigger] m2.contains_key(k) <==> m0.contains_key(k) && !has_tag(m0[k].tags@, "docker"@)) by {
                if exists|j: int| 0 <= j < seen.len() && container_endpoint_id(seen[j]) == Some(k) {
                    let j = choose|j: int| 0 <= j < seen.len() && container_endpoint_id(seen[j]) == Some(k);
                    assert(found_in(seen, k));
                }
                if m0.contains_key(k) {
                    assert(m1[k] === m0[k]);
                }
            }
            assert forall|k: Seq<char>| !found_in(seen, k) && #[trigger] m2.contains_key(k) implies m2[k] === m0[k] by {
                if exists|j: int| 0 <= j < seen.len() && container_endpoint_id(seen[j]) == Some(k) {
                    let j = choose|j: int| 0 <= j < seen.len() && container_endpoint_id(seen[j]) == Some(k);
                    assert(found_in(seen, k));
                }
            }
        }
    }
}

} // verus!

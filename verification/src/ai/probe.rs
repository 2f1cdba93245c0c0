//! The probe engine: what to probe, how a probe's outcome changes an
//! endpoint's health, and the pruning of endpoints offline for too long.
//!
//! The requests themselves are sent by the caller; this module decides.
use vstd::prelude::*;
use crate::ai::endpoints::{ProbeOutcome, can_record, probed, offline_too_long};
use crate::ai::table::{EndpointTable, lists_table, text_set, distinct_texts_count};
use crate::clock::{utc_now_millis, seconds_between};
use crate::text::concat2;

verus! {

/// `url` without the `/` characters at its end.
pub open spec fn without_trailing_slashes(url: Seq<char>) -> Seq<char>
    decreases url.len(),
{
    if url.len() > 0 && url.last() == '/' { without_trailing_slashes(url.drop_last()) } else { url }
}

/// The address of the health check of the service at `url`.
pub open spec fn health_url_of(url: Seq<char>) -> Seq<char> {
    without_trailing_slashes(url) + "/health"@
}

/// The address of the health check of the service at `url`: the URL without
/// its trailing slashes, then `/health`.
pub fn health_url(url: &str) -> (r: String)
    ensures
        r@ == health_url_of(url@),
{
    let cs = crate::text::chars_of(url);
    let mut end: usize = cs.len();
    proof {
        assert(url@.subrange(0, end as int) =~= url@);
    }
    while end > 0 && cs[end - 1] == '/'
        invariant
            end <= cs@.len(),
            cs@ == url@,
            without_trailing_slashes(url@) == without_trailing_slashes(url@.subrange(0, end as int)),
        decreases end,
    {
        proof {
            assert(url@.subrange(0, end as int).drop_last() =~= url@.subrange(0, end - 1));
        }
        end = end - 1;
    }
    let piece = url.substring_char(0, end);
    let mut r = String::from_str(piece);
    proof {
        assert(r@ =~= url@.subrange(0, end as int));
    }
    proof {
        assert(!(end > 0 && url@[end - 1] == '/'));
        assert(without_trailing_slashes(url@.subrange(0, end as int)) == url@.subrange(0, end as int));
    }
    r.append("/health");
    r
}

/// The ids of the endpoints of `m` offline for more than `max_offline_secs`
/// whole seconds at `now`.
pub open spec fn offline_ids(m: Map<Seq<char>, crate::ai::endpoints::AiEndpoint>, max_offline_secs: i64, now: i64) -> Set<Seq<char>> {
    m.dom().filter(|k: Seq<char>| offline_too_long(m[k].health, max_offline_secs, now))
}

/// Probes AI endpoints and keeps their health current.
#[derive(Debug)]
pub struct ProbeEngine {
    endpoints: EndpointTable,
}

impl ProbeEngine {
    /// The table the engine keeps current.
    pub closed spec fn table(&self) -> EndpointTable {
        self.endpoints
    }

    pub fn new(endpoints: EndpointTable) -> (r: Self)
        ensures
            r.table() == endpoints,
    {
        ProbeEngine { endpoints }
    }

    /// The table the engine keeps current.
    pub fn endpoints(&self) -> (r: &EndpointTable)
        ensures
            *r == self.table(),
    {
        &self.endpoints
    }

    /// Hands the table back.
    pub fn into_endpoints(self) -> (r: EndpointTable)
        ensures
            r == self.table(),
    {
        self.endpoints
    }

    /// Each endpoint to probe, once, as its id and the address of its
    /// health check, in the table's own order.
    pub fn probe_targets(&self) -> (r: Vec<(String, String)>)
        ensures
            r@.len() == self.table().endpoints().dom().len(),
            forall|i: int| 0 <= i < r@.len() ==> #[trigger] self.table().endpoints().contains_key(r@[i].0@)
                && r@[i].1@ == health_url_of(self.table().endpoints()[r@[i].0@].url@),
            forall|i: int, j: int| 0 <= i < j < r@.len() ==> r@[i].0@ != r@[j].0@,
            forall|k: Seq<char>| #[trigger] self.table().endpoints().contains_key(k) ==> exists|i: int| 0 <= i < r@.len() && r@[i].0@ == k,
    {
        let entries = self.endpoints.entries();
        let ghost m = self.endpoints.endpoints();
        let mut r: Vec<(String, String)> = Vec::new();
        let mut i: usize = 0;
        while i < entries.len()
            invariant
                i <= entries@.len(),
                r@.len() == i,
                forall|j: int| 0 <= j < i ==> (#[trigger] r@[j]).0@ == entries@[j].0@
                    && r@[j].1@ == health_url_of(entries@[j].1.url@),
            decreases entries@.len() - i,
        {
            let id = entries[i].0.clone();
            let url = health_url(entries[i].1.url.as_str());
            r.push((id, url));
            i = i + 1;
        }
        proof {
            assert forall|j: int| 0 <= j < r@.len() implies #[trigger] m.contains_key(r@[j].0@)
                && r@[j].1@ == health_url_of(m[r@[j].0@].url@) by {
                assert((#[trigger] r@[j]).0@ == entries@[j].0@);
                assert(m.contains_key(entries@[j].0@));
            }
            assert forall|a: int, b: int| 0 <= a < b < r@.len() implies r@[a].0@ != r@[b].0@ by {
                assert(r@[a].0@ == entries@[a].0@);
                assert(r@[b].0@ == entries@[b].0@);
            }
            assert forall|k: Seq<char>| #[trigger] m.contains_key(k) implies exists|i: int| 0 <= i < r@.len() && r@[i].0@ == k by {
                let j = choose|j: int| 0 <= j < entries@.len() && entries@[j].0@ == k;
                assert(r@[j].0@ == entries@[j].0@);
            }
        }
        r
    }

    /// Records a probe of the endpoint under `id`; see
    /// `EndpointTable::record_probe_at`.
    pub fn record_probe_at(&mut self, id: &str, outcome: ProbeOutcome, latency_ms: u64, now: i64) -> (recorded: bool)
        ensures
            recorded == (old(self).table().endpoints().contains_key(id@) && can_record(old(self).table().endpoints()[id@].health, outcome)),
            recorded ==> final(self).table().endpoints() === old(self).table().endpoints().insert(
                id@,
                crate::ai::endpoints::AiEndpoint {
                    health: probed(old(self).table().endpoints()[id@].health, outcome, latency_ms, now),
                    ..old(self).table().endpoints()[id@]
                },
            ),
            !recorded ==> final(self).table().endpoints() === old(self).table().endpoints(),
    {
        self.endpoints.record_probe_at(id, outcome, latency_ms, now)
    }

    /// Removes the endpoints offline for more than `max_offline_secs` whole
    /// seconds at `now` and returns how many were removed.
    pub fn prune_offline_at(&mut self, max_offline_secs: i64, now: i64) -> (removed: usize)
        ensures
            final(self).table().endpoints() === old(self).table().endpoints().remove_keys(
                offline_ids(old(self).table().endpoints(), max_offline_secs, now),
            ),
            removed == offline_ids(old(self).table().endpoints(), max_offline_secs, now).len(),
    {
        let entries = self.endpoints.entries();
        let ghost m = self.endpoints.endpoints();
        let ghost es = entries@;
        let mut to_remove: Vec<String> = Vec::new();
        let ghost mut idx: Seq<int> = Seq::empty();
        let mut i: usize = 0;
        while i < entries.len()
            invariant
                i <= es.len(),
                entries@ == es,
                lists_table(es, m),
                idx.len() == to_remove@.len(),
                forall|a: int| 0 <= a < idx.len() ==> 0 <= #[trigger] idx[a] < i && to_remove@[a]@ == es[idx[a]].0@
                    && offline_too_long(es[idx[a]].1.health, max_offline_secs, now),
                forall|a: int, b: int| 0 <= a < b < idx.len() ==> idx[a] < idx[b],
                forall|j: int| 0 <= j < i && offline_too_long(#[trigger] es[j].1.health, max_offline_secs, now)
                    ==> exists|a: int| 0 <= a < idx.len() && idx[a] == j,
            decreases es.len() - i,
        {
            let h = &entries[i].1.health;
            let since = match h.offline_since {
                Some(t) => t,
                None => h.last_checked,
            };
            let offline = match h.status {
                crate::ai::endpoints::HealthStatus::Offline => true,
                _ => false,
            };
            if offline && seconds_between(since, now) > max_offline_secs as i128 {
                to_remove.push(entries[i].0.clone());
                proof {
                    let ghost old_idx = idx;
                    idx = idx.push(i as int);
                    assert forall|j: int| 0 <= j < i + 1 && offline_too_long(#[trigger] es[j].1.health, max_offline_secs, now)
                        implies exists|a: int| 0 <= a < idx.len() && idx[a] == j by {
                        if j < i {
                            let a = choose|a: int| 0 <= a < old_idx.len() && old_idx[a] == j;
                            assert(idx[a] == j);
                        } else {
                            assert(idx[old_idx.len() as int] == j);
                        }
                    }
                }
            }
            i = i + 1;
        }
        proof {
            assert forall|a: int, b: int| 0 <= a < b < to_remove@.len() implies to_remove@[a]@ != to_remove@[b]@ by {
                assert(idx[a] < idx[b]);
            }
            distinct_texts_count(to_remove@);
            assert(text_set(to_remove@) =~= offline_ids(m, max_offline_secs, now)) by {
                assert forall|k: Seq<char>| #[trigger] text_set(to_remove@).contains(k) implies offline_ids(m, max_offline_secs, now).contains(k) by {
                    let v = to_remove@.map_values(|s: String| s@);
                    let a = choose|a: int| 0 <= a < v.len() && v[a] == k;
                    assert(to_remove@[a]@ == k);
                    assert(0 <= idx[a] < es.len());
                    assert(m.contains_key(es[idx[a]].0@));
                }
                assert forall|k: Seq<char>| #[trigger] offline_ids(m, max_offline_secs, now).contains(k) implies text_set(to_remove@).contains(k) by {
                    let j = choose|j: int| 0 <= j < es.len() && es[j].0@ == k;
                    assert(offline_too_long(es[j].1.health, max_offline_secs, now));
                    let a = choose|a: int| 0 <= a < idx.len() && idx[a] == j;
                    let v = to_remove@.map_values(|s: String| s@);
                    assert(v[a] == k);
                }
            }
        }
        self.endpoints.remove_all(&to_remove);
        to_remove.len()
    }

    /// Removes the endpoints offline for more than `max_offline_secs` whole
    /// seconds now and returns how many were removed.
    pub fn prune_offline(&mut self, max_offline_secs: i64) -> (removed: usize)
        ensures
            exists|now: i64| {
                &&& final(self).table().endpoints() === old(self).table().endpoints().remove_keys(
                    #[trigger] offline_ids(old(self).table().endpoints(), max_offline_secs, now),
                )
                &&& removed == offline_ids(old(self).table().endpoints(), max_offline_secs, now).len()
            },
    {
        let now = utc_now_millis();
        self.prune_offline_at(max_offline_secs, now)
    }
}

} // verus!

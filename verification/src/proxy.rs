//! The decisions of the OpenAI-compatible proxy: which model a request is
//! for, which endpoints may serve it, where it is forwarded, and how the
//! models are listed.
//!
//! The HTTP exchange with the upstream endpoint is carried out by the
//! caller.
use vstd::prelude::*;
use crate::ai::endpoints::{AiEndpoint, EndpointType, HealthStatus, endpoint_type_name};
use crate::ai::probe::without_trailing_slashes;
use crate::ai::table::{EndpointTable, lists_table};
use crate::circuit::{CircuitBreaker, EndpointCircuit, allow_step, circuit_of};
use crate::mcp::trim_url;
use crate::message::{get_header, header_value, header_view};
use crate::text::{concat2, concat3};

verus! {

#[derive(Debug, Clone)]
pub struct ChatMessage {
    pub role: String,
    pub content: String,
    pub name: Option<String>,
}

/// OpenAI-compatible response.
#[derive(Debug, Clone)]
pub struct ChatCompletionResponse {
    pub id: String,
    pub object: String,
    pub created: u64,
    pub model: String,
    pub choices: Vec<Choice>,
    pub usage: Option<Usage>,
    pub xfiles_routed_to: Option<String>,
    pub xfiles_explanation: Option<String>,
}

#[derive(Debug, Clone)]
pub struct Choice {
    pub index: u32,
    pub message: ChatMessage,
    pub finish_reason: Option<String>,
}

#[derive(Debug, Clone, Copy)]
pub struct Usage {
    pub prompt_tokens: u32,
    pub completion_tokens: u32,
    pub total_tokens: u32,
}

/// The model a request for `requested` goes to: the default model when none
/// is named, else the alias's target when `requested` is an alias, else
/// `requested` itself.
pub open spec fn resolved_model(requested: Seq<char>, default_model: Seq<char>, aliases: Seq<(String, String)>) -> Seq<char> {
    if requested.len() == 0 {
        default_model
    } else {
        match header_value(header_view(aliases), requested) {
            Some(target) => target,
            None => requested,
        }
    }
}

/// The model a request for `requested` goes to, given the default model and
/// the aliases (each alias once).
pub fn resolve_model(requested: &str, default_model: &str, aliases: &Vec<(String, String)>) -> (r: String)
    ensures
        r@ == resolved_model(requested@, default_model@, aliases@),
{
    if requested.is_empty() {
        return default_model.to_string();
    }
    match get_header(aliases, requested) {
        Some(target) => target,
        None => requested.to_string(),
    }
}

/// Whether endpoint `ep` is offline.
pub open spec fn is_offline(ep: AiEndpoint) -> bool {
    ep.health.status == HealthStatus::Offline
}

/// The ids of the endpoints of `es` that are not offline, in order.
pub open spec fn online_ids(es: Seq<(String, AiEndpoint)>) -> Seq<Seq<char>>
    decreases es.len(),
{
    if es.len() == 0 {
        Seq::empty()
    } else {
        let before = online_ids(es.drop_last());
        if is_offline(es.last().1) { before } else { before.push(es.last().1.id@) }
    }
}

/// Going through the endpoints `es` in order with the circuits `circuits`
/// at time `now`: the ids of those not offline whose circuit lets the
/// request through, and the circuits after each decision. Offline endpoints
/// are passed over without asking their circuit.
pub open spec fn proxy_pass(
    circuits: Map<Seq<char>, EndpointCircuit>,
    timeout_secs: u64,
    half_open_max: u32,
    es: Seq<(String, AiEndpoint)>,
    now: u64,
) -> (Seq<Seq<char>>, Map<Seq<char>, EndpointCircuit>)
    decreases es.len(),
{
    if es.len() == 0 {
        (Seq::empty(), circuits)
    } else {
        let (kept, c) = proxy_pass(circuits, timeout_secs, half_open_max, es.drop_last(), now);
        let ep = es.last().1;
        if is_offline(ep) {
            (kept, c)
        } else {
            let step = allow_step(circuit_of(c, ep.id@), timeout_secs, half_open_max, now);
            let c2 = c.insert(ep.id@, step.1);
            if step.0 { (kept.push(ep.id@), c2) } else { (kept, c2) }
        }
    }
}

/// The character views of a list of texts.
pub open spec fn texts(v: Seq<String>) -> Seq<Seq<char>> {
    v.map_values(|s: String| s@)
}

/// The ids of the endpoints that may serve a request, without a circuit
/// breaker: those not offline, in the table's own order.
pub fn proxy_candidates(endpoints: &EndpointTable) -> (r: Vec<String>)
    ensures
        exists|es: Seq<(String, AiEndpoint)>| lists_table(es, endpoints.endpoints()) && texts(r@) == #[trigger] online_ids(es),
{
    let entries = endpoints.entries();
    let ghost es = entries@;
    let mut r: Vec<String> = Vec::new();
    let mut i: usize = 0;
    proof {
        assert(es.subrange(0, 0) =~= Seq::<(String, AiEndpoint)>::empty());
        assert(texts(r@) =~= Seq::<Seq<char>>::empty());
    }
    while i < entries.len()
        invariant
            i <= es.len(),
            entries@ == es,
            texts(r@) == online_ids(es.subrange(0, i as int)),
        decreases es.len() - i,
    {
        proof {
            assert(es.subrange(0, i + 1).drop_last() =~= es.subrange(0, i as int));
        }
        let offline = match entries[i].1.health.status {
            HealthStatus::Offline => true,
            _ => false,
        };
        if !offline {
            let ghost before = texts(r@);
            r.push(entries[i].1.id.clone());
            proof {
                assert(texts(r@) =~= before.push(es[i as int].1.id@));
            }
        }
        i = i + 1;
    }
    proof {
        assert(es.subrange(0, es.len() as int) =~= es);
    }
    r
}

/// The ids of the endpoints that may serve a request at time `now`
/// (nanoseconds on the breaker's clock): those not offline whose circuit
/// lets the request through, in the table's own order. Each circuit asked
/// records its decision.
pub fn proxy_candidates_at(endpoints: &EndpointTable, circuit: &mut CircuitBreaker, now: u64) -> (r: Vec<String>)
    ensures
        old(circuit).same_config(&*final(circuit)),
        exists|es: Seq<(String, AiEndpoint)>| {
            &&& lists_table(es, endpoints.endpoints())
            &&& #[trigger] proxy_pass(old(circuit).circuits(), old(circuit).timeout_secs(), old(circuit).half_open_max(), es, now)
                == (texts(r@), final(circuit).circuits())
        },
{
    let entries = endpoints.entries();
    let ghost es = entries@;
    let ghost c0 = circuit.circuits();
    let ghost timeout = circuit.timeout_secs();
    let ghost hmax = circuit.half_open_max();
    let mut r: Vec<String> = Vec::new();
    let mut i: usize = 0;
    proof {
        assert(es.subrange(0, 0) =~= Seq::<(String, AiEndpoint)>::empty());
        assert(texts(r@) =~= Seq::<Seq<char>>::empty());
    }
    while i < entries.len()
        invariant
            i <= es.len(),
            entries@ == es,
            proxy_pass(c0, timeout, hmax, es.subrange(0, i as int), now) == (texts(r@), circuit.circuits()),
            circuit.timeout_secs() == timeout,
            circuit.half_open_max() == hmax,
            old(circuit).same_config(&*circuit),
        decreases es.len() - i,
    {
        proof {
            assert(es.subrange(0, i + 1).drop_last() =~= es.subrange(0, i as int));
        }
        let offline = match entries[i].1.health.status {
            HealthStatus::Offline => true,
            _ => false,
        };
        if !offline {
            let allowed = circuit.allow_at(entries[i].1.id.as_str(), now);
            if allowed {
                let ghost before = texts(r@);
                r.push(entries[i].1.id.clone());
                proof {
                    assert(texts(r@) =~= before.push(es[i as int].1.id@));
                }
            }
        }
        i = i + 1;
    }
    proof {
        assert(es.subrange(0, es.len() as int) =~= es);
    }
    r
}

/// Why a request cannot be forwarded: the HTTP status it is answered with,
/// and the error message.
#[derive(Debug, Clone)]
pub struct ProxyRefusal {
    pub status: u16,
    pub message: String,
}

/// Where a request to the endpoint at `url` is forwarded.
pub open spec fn chat_url(url: Seq<char>) -> Seq<char> {
    without_trailing_slashes(url) + "/v1/chat/completions"@
}

/// Where a request to the endpoint at `url` is forwarded.
pub fn chat_completions_url(url: &str) -> (r: String)
    ensures
        r@ == chat_url(url@),
{
    let base = trim_url(url);
    concat2(base.as_str(), "/v1/chat/completions")
}

/// The endpoint that serves a request, given the id selected among the
/// candidates (none when there was no candidate): refused with 503 when
/// nothing was selected or the endpoint is gone.
pub fn pick_endpoint(endpoints: &EndpointTable, selected: Option<String>) -> (r: Result<AiEndpoint, ProxyRefusal>)
    ensures
        selected is None ==> (r matches Err(e) && e.status == 503 && e.message@ == "no healthy AI endpoints available"@),
        selected matches Some(id) ==> if endpoints.endpoints().contains_key(id@) {
            r matches Ok(ep) && ep === endpoints.endpoints()[id@]
        } else {
            r matches Err(e) && e.status == 503 && e.message@ == "selected endpoint no longer exists"@
        },
{
    match selected {
        None => Err(ProxyRefusal { status: 503, message: "no healthy AI endpoints available".to_string() }),
        Some(id) => match endpoints.get(id.as_str()) {
            Some(ep) => Ok(ep),
            None => Err(ProxyRefusal { status: 503, message: "selected endpoint no longer exists".to_string() }),
        },
    }
}

/// The name a health status is listed with.
pub open spec fn health_label(s: HealthStatus) -> Seq<char> {
    match s {
        HealthStatus::Healthy => "healthy"@,
        HealthStatus::Degraded => "degraded"@,
        HealthStatus::Offline => "offline"@,
    }
}

/// The name a health status is listed with.
pub fn health_name(s: HealthStatus) -> (r: String)
    ensures
        r@ == health_label(s),
{
    match s {
        HealthStatus::Healthy => "healthy".to_string(),
        HealthStatus::Degraded => "degraded".to_string(),
        HealthStatus::Offline => "offline".to_string(),
    }
}

/// One entry of the model listing.
#[derive(Debug, Clone)]
pub struct ModelEntry {
    pub id: String,
    pub owned_by: String,
    pub url: String,
    pub kind: String,
    pub health: String,
}

/// Whether `m` lists endpoint `ep`: as `{name}/{id}`, owned by its name,
/// with its URL, type and health.
pub open spec fn lists_endpoint(m: ModelEntry, ep: AiEndpoint) -> bool {
    &&& m.id@ == ep.name@ + "/"@ + ep.id@
    &&& m.owned_by@ == ep.name@
    &&& m.url@ == ep.url@
    &&& m.kind@ == endpoint_type_name(ep.endpoint_type)
    &&& m.health@ == health_label(ep.health.status)
}

/// The endpoints of `es` that are not offline, in order.
pub open spec fn online(es: Seq<(String, AiEndpoint)>) -> Seq<AiEndpoint>
    decreases es.len(),
{
    if es.len() == 0 {
        Seq::empty()
    } else {
        let before = online(es.drop_last());
        if is_offline(es.last().1) { before } else { before.push(es.last().1) }
    }
}

/// The model listing: an entry for each endpoint that is not offline, in
/// the table's own order.
pub fn model_entries(endpoints: &EndpointTable) -> (r: Vec<ModelEntry>)
    ensures
        exists|es: Seq<(String, AiEndpoint)>| {
            &&& lists_table(es, endpoints.endpoints())
            &&& r@.len() == (#[trigger] online(es)).len()
            &&& forall|i: int| 0 <= i < r@.len() ==> lists_endpoint(#[trigger] r@[i], online(es)[i])
        },
{
    let entries = endpoints.entries();
    let ghost es = entries@;
    let mut r: Vec<ModelEntry> = Vec::new();
    let mut i: usize = 0;
    proof {
        assert(es.subrange(0, 0) =~= Seq::<(String, AiEndpoint)>::empty());
    }
    while i < entries.len()
        invariant
            i <= es.len(),
            entries@ == es,
            r@.len() == online(es.subrange(0, i as int)).len(),
            forall|j: int| 0 <= j < r@.len() ==> lists_endpoint(#[trigger] r@[j], online(es.subrange(0, i as int))[j]),
        decreases es.len() - i,
    {
        let ghost prev = online(es.subrange(0, i as int));
        proof {
            assert(es.subrange(0, i + 1).drop_last() =~= es.subrange(0, i as int));
        }
        let ep = &entries[i].1;
        let offline = match ep.health.status {
            HealthStatus::Offline => true,
            _ => false,
        };
        if !offline {
            let entry = ModelEntry {
                id: concat3(ep.name.as_str(), "/", ep.id.as_str()),
                owned_by: ep.name.clone(),
                url: ep.url.clone(),
                kind: ep.endpoint_type.name(),
                health: health_name(ep.health.status),
            };
            r.push(entry);
            proof {
                let now_online = online(es.subrange(0, i + 1));
                assert(now_online == prev.push(es[i as int].1));
                assert forall|j: int| 0 <= j < r@.len() implies lists_endpoint(#[trigger] r@[j], now_online[j]) by {
                    if j < prev.len() {
                        assert(now_online[j] == prev[j]);
                    }
                }
            }
        }
        i = i + 1;
    }
    proof {
        assert(es.subrange(0, es.len() as int) =~= es);
    }
    r
}

/// Records how the upstream request to endpoint `endpoint_id` went: a
/// success or a failure of its circuit.
pub fn record_outcome(circuit: &mut CircuitBreaker, endpoint_id: &str, success: bool)
    requires
        !success ==> circuit_of(old(circuit).circuits(), endpoint_id@).failures < u32::MAX,
    ensures
        old(circuit).same_config(&*final(circuit)),
        success ==> final(circuit).circuits() == (if old(circuit).circuits().contains_key(endpoint_id@) {
            old(circuit).circuits().insert(endpoint_id@, crate::circuit::success_step(old(circuit).circuits()[endpoint_id@]))
        } else {
            old(circuit).circuits()
        }),
        !success ==> exists|now: u64| final(circuit).circuits() == old(circuit).circuits().insert(
            endpoint_id@,
            #[trigger] crate::circuit::failure_step(circuit_of(old(circuit).circuits(), endpoint_id@), old(circuit).threshold(), now),
        ),
{
    if success {
        circuit.record_success(endpoint_id);
    } else {
        circuit.record_failure(endpoint_id);
    }
}

proof fn pass_leaves_other_circuits(
    circuits: Map<Seq<char>, EndpointCircuit>,
    timeout_secs: u64,
    half_open_max: u32,
    es: Seq<(String, AiEndpoint)>,
    now: u64,
    id: Seq<char>,
)
    requires
        forall|j: int| 0 <= j < es.len() ==> (#[trigger] es[j]).1.id@ != id,
    ensures
        circuit_of(proxy_pass(circuits, timeout_secs, half_open_max, es, now).1, id) == circuit_of(circuits, id),
    decreases es.len(),
{
    if es.len() > 0 {
        let rest = es.drop_last();
        assert forall|j: int| 0 <= j < rest.len() implies (#[trigger] rest[j]).1.id@ != id by {
            assert(rest[j] == es[j]);
        }
        pass_leaves_other_circuits(circuits, timeout_secs, half_open_max, rest, now, id);
        assert(es[es.len() - 1] == es.last());
    }
}

proof fn kept_at_its_turn(
    circuits: Map<Seq<char>, EndpointCircuit>,
    timeout_secs: u64,
    half_open_max: u32,
    es: Seq<(String, AiEndpoint)>,
    now: u64,
    i: int,
)
    requires
        0 <= i < es.len(),
        es[i].1.health.status != HealthStatus::Offline,
        allow_step(circuit_of(proxy_pass(circuits, timeout_secs, half_open_max, es.take(i), now).1, es[i].1.id@),
            timeout_secs, half_open_max, now).0,
    ensures
        proxy_pass(circuits, timeout_secs, half_open_max, es, now).0.contains(es[i].1.id@),
    decreases es.len(),
{
    let rest = es.drop_last();
    let id = es[i].1.id@;
    let before = proxy_pass(circuits, timeout_secs, half_open_max, rest, now).0;
    let after = proxy_pass(circuits, timeout_secs, half_open_max, es, now).0;
    if i == es.len() - 1 {
        assert(rest =~= es.take(i));
        assert(es.last() == es[i]);
        assert(after == before.push(id));
        assert(after[after.len() - 1] == id);
    } else {
        assert(rest.take(i) =~= es.take(i));
        assert(rest[i] == es[i]);
        kept_at_its_turn(circuits, timeout_secs, half_open_max, rest, now, i);
        let k = choose|k: int| 0 <= k < before.len() && before[k] == id;
        assert(after[k] == id);
    }
}

/// Every endpoint that is not offline, and whose circuit is closed and not
/// touched earlier in the pass, may serve the request: Healthy and Degraded
/// endpoints alike are among the candidates.
pub proof fn live_endpoints_with_closed_circuits_are_candidates(
    circuits: Map<Seq<char>, EndpointCircuit>,
    timeout_secs: u64,
    half_open_max: u32,
    es: Seq<(String, AiEndpoint)>,
    now: u64,
    i: int,
)
    requires
        0 <= i < es.len(),
        es[i].1.health.status == HealthStatus::Healthy || es[i].1.health.status == HealthStatus::Degraded,
        circuit_of(circuits, es[i].1.id@).state == crate::circuit::CircuitState::Closed,
        forall|j: int| 0 <= j < i ==> (#[trigger] es[j]).1.id@ != es[i].1.id@,
    ensures
        proxy_pass(circuits, timeout_secs, half_open_max, es, now).0.contains(es[i].1.id@),
{
    let pre = es.take(i);
    assert forall|j: int| 0 <= j < pre.len() implies (#[trigger] pre[j]).1.id@ != es[i].1.id@ by {
        assert(pre[j] == es[j]);
    }
    pass_leaves_other_circuits(circuits, timeout_secs, half_open_max, pre, now, es[i].1.id@);
    kept_at_its_turn(circuits, timeout_secs, half_open_max, es, now, i);
}

/// Whether `id` is the id of an endpoint of `es` that is not offline.
pub open spec fn live_id_in(es: Seq<(String, AiEndpoint)>, id: Seq<char>) -> bool {
    exists|j: int| 0 <= j < es.len() && (#[trigger] es[j]).1.id@ == id && es[j].1.health.status != HealthStatus::Offline
}

proof fn live_id_in_grows(es: Seq<(String, AiEndpoint)>, id: Seq<char>)
    requires
        es.len() > 0,
        live_id_in(es.drop_last(), id),
    ensures
        live_id_in(es, id),
{
    let rest = es.drop_last();
    let j = choose|j: int| 0 <= j < rest.len() && (#[trigger] rest[j]).1.id@ == id && rest[j].1.health.status != HealthStatus::Offline;
    assert(es[j] == rest[j]);
}

proof fn live_id_in_last(es: Seq<(String, AiEndpoint)>)
    requires
        es.len() > 0,
        es.last().1.health.status != HealthStatus::Offline,
    ensures
        live_id_in(es, es.last().1.id@),
{
    assert(es[es.len() - 1] == es.last());
}

/// Only endpoints that are not offline are candidates: each id the pass
/// keeps is that of an endpoint of `es` whose status is Healthy or
/// Degraded.
pub proof fn candidates_are_not_offline(
    circuits: Map<Seq<char>, EndpointCircuit>,
    timeout_secs: u64,
    half_open_max: u32,
    es: Seq<(String, AiEndpoint)>,
    now: u64,
)
    ensures
        forall|k: int| 0 <= k < proxy_pass(circuits, timeout_secs, half_open_max, es, now).0.len() ==>
            live_id_in(es, #[trigger] proxy_pass(circuits, timeout_secs, half_open_max, es, now).0[k]),
    decreases es.len(),
{
    if es.len() > 0 {
        let rest = es.drop_last();
        candidates_are_not_offline(circuits, timeout_secs, half_open_max, rest, now);
        let before = proxy_pass(circuits, timeout_secs, half_open_max, rest, now).0;
        let after = proxy_pass(circuits, timeout_secs, half_open_max, es, now).0;
        assert forall|k: int| 0 <= k < after.len() implies live_id_in(es, #[trigger] after[k]) by {
            if k < before.len() {
                assert(after[k] == before[k]);
                live_id_in_grows(es, before[k]);
            } else {
                live_id_in_last(es);
            }
        }
    }
}

/// Without a circuit breaker, every endpoint that is not offline is a
/// candidate, and only those.
pub proof fn online_ids_are_the_live_endpoints(es: Seq<(String, AiEndpoint)>)
    ensures
        forall|i: int| 0 <= i < es.len() && (#[trigger] es[i]).1.health.status != HealthStatus::Offline ==>
            online_ids(es).contains(es[i].1.id@),
        forall|k: int| 0 <= k < online_ids(es).len() ==> live_id_in(es, #[trigger] online_ids(es)[k]),
    decreases es.len(),
{
    if es.len() > 0 {
        let rest = es.drop_last();
        online_ids_are_the_live_endpoints(rest);
        let before = online_ids(rest);
        let after = online_ids(es);
        assert forall|i: int| 0 <= i < es.len() && (#[trigger] es[i]).1.health.status != HealthStatus::Offline implies
            after.contains(es[i].1.id@) by {
            if i < es.len() - 1 {
                assert(rest[i] == es[i]);
                let k = choose|k: int| 0 <= k < before.len() && before[k] == es[i].1.id@;
                assert(after[k] == es[i].1.id@);
            } else {
                assert(es.last() == es[i]);
                assert(after[after.len() - 1] == es[i].1.id@);
            }
        }
        assert forall|k: int| 0 <= k < after.len() implies live_id_in(es, #[trigger] after[k]) by {
            if k < before.len() {
                assert(after[k] == before[k]);
                live_id_in_grows(es, before[k]);
            } else {
                live_id_in_last(es);
            }
        }
    }
}

} // verus!

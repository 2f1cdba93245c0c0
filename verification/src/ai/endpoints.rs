//! AI service endpoints, their health, and the table they are kept in.
use vstd::prelude::*;
use dashmap::DashMap;
use crate::clock::{random_uuid, utc_now_millis};
use crate::text::{concat2, concat3, same_text};

verus! {

/// Classification of AI endpoint types.
#[derive(Debug, Clone, Copy, PartialEq, Eq, Structural)]
pub enum EndpointType {
    Router,
    Inference,
    Memory,
    Agent,
    Api,
}

/// The name an endpoint type is written with.
pub open spec fn endpoint_type_name(t: EndpointType) -> Seq<char> {
    match t {
        EndpointType::Router => "router"@,
        EndpointType::Inference => "inference"@,
        EndpointType::Memory => "memory"@,
        EndpointType::Agent => "agent"@,
        EndpointType::Api => "api"@,
    }
}

/// The endpoint type written `s`, if `s` names one.
pub open spec fn endpoint_type_named(s: Seq<char>) -> Option<EndpointType> {
    if s == "router"@ {
        Some(EndpointType::Router)
    } else if s == "inference"@ {
        Some(EndpointType::Inference)
    } else if s == "memory"@ {
        Some(EndpointType::Memory)
    } else if s == "agent"@ {
        Some(EndpointType::Agent)
    } else if s == "api"@ {
        Some(EndpointType::Api)
    } else {
        None
    }
}

/// The message a name that is no endpoint type is refused with.
pub open spec fn unknown_type_message(s: Seq<char>) -> Seq<char> {
    "unknown endpoint type: "@ + s
}

impl EndpointType {
    /// The type's name, as it is written in configuration.
    pub fn name(&self) -> (r: String)
        ensures
            r@ == endpoint_type_name(*self),
    {
        match self {
            EndpointType::Router => "router".to_string(),
            EndpointType::Inference => "inference".to_string(),
            EndpointType::Memory => "memory".to_string(),
            EndpointType::Agent => "agent".to_string(),
            EndpointType::Api => "api".to_string(),
        }
    }

    /// The endpoint type named `s`; any other text is refused with a
    /// message that quotes it.
    pub fn parse(s: &str) -> (r: Result<EndpointType, String>)
        ensures
            r matches Ok(t) ==> endpoint_type_named(s@) == Some(t),
            r matches Err(e) ==> endpoint_type_named(s@) is None && e@ == unknown_type_message(s@),
    {
        if same_text(s, "router") {
            Ok(EndpointType::Router)
        } else if same_text(s, "inference") {
            Ok(EndpointType::Inference)
        } else if same_text(s, "memory") {
            Ok(EndpointType::Memory)
        } else if same_text(s, "agent") {
            Ok(EndpointType::Agent)
        } else if same_text(s, "api") {
            Ok(EndpointType::Api)
        } else {
            Err(concat2("unknown endpoint type: ", s))
        }
    }
}

impl std::str::FromStr for EndpointType {
    type Err = String;

    fn from_str(s: &str) -> (r: Result<EndpointType, String>)
        ensures
            r matches Ok(t) ==> endpoint_type_named(s@) == Some(t),
            r matches Err(e) ==> endpoint_type_named(s@) is None && e@ == unknown_type_message(s@),
    {
        EndpointType::parse(s)
    }
}

/// Each endpoint type is read back from its own name, and a name is read
/// only as the type it names.
pub proof fn endpoint_type_names_round_trip(t: EndpointType, s: Seq<char>)
    ensures
        endpoint_type_named(endpoint_type_name(t)) == Some(t),
        endpoint_type_named(s) == Some(t) ==> s == endpoint_type_name(t),
{
    reveal_strlit("router");
    reveal_strlit("inference");
    reveal_strlit("memory");
    reveal_strlit("agent");
    reveal_strlit("api");
    assert("router"@.len() == 6 && "memory"@.len() == 6);
    assert("inference"@.len() == 9 && "agent"@.len() == 5 && "api"@.len() == 3);
    assert("router"@[0] != "memory"@[0]);
}

/// How an endpoint answered its last health probe.
#[derive(Debug, Clone, Copy, PartialEq, Eq, Structural)]
pub enum HealthStatus {
    Healthy,
    Degraded,
    Offline,
}

/// The health record of an endpoint. Times are milliseconds since the Unix
/// epoch; `offline_since` is when the endpoint last went offline.
#[derive(Debug, Clone)]
pub struct EndpointHealth {
    pub status: HealthStatus,
    pub last_checked: i64,
    pub consecutive_failures: u32,
    pub probe_latency_ms: u64,
    pub last_error: Option<String>,
    pub offline_since: Option<i64>,
}

/// Consecutive failed probes after which an endpoint is offline.
pub const OFFLINE_AFTER_FAILURES: u32 = 3;

/// The health record of an endpoint not yet probed, checked at `now`.
pub open spec fn fresh_health(now: i64) -> EndpointHealth {
    EndpointHealth {
        status: HealthStatus::Healthy,
        last_checked: now,
        consecutive_failures: 0,
        probe_latency_ms: 0,
        last_error: None,
        offline_since: None,
    }
}

/// The outcome of one health probe: the endpoint answered with success, or
/// it did not, for the reason given.
#[derive(Debug, Clone)]
pub enum ProbeOutcome {
    Success,
    Failure(String),
}

/// Whether recording `outcome` on `h` stays within the failure counter's
/// range.
pub open spec fn can_record(h: EndpointHealth, outcome: ProbeOutcome) -> bool {
    outcome is Failure ==> h.consecutive_failures < u32::MAX
}

/// The health record after a probe at `now` that took `latency_ms` and
/// ended with `outcome`. A success clears the failures; a failure counts
/// one more, and from the third in a row on the endpoint is offline, since
/// the moment it first went offline.
pub open spec fn probed(h: EndpointHealth, outcome: ProbeOutcome, latency_ms: u64, now: i64) -> EndpointHealth {
    match outcome {
        ProbeOutcome::Success => EndpointHealth {
            status: HealthStatus::Healthy,
            last_checked: now,
            consecutive_failures: 0,
            probe_latency_ms: latency_ms,
            last_error: None,
            offline_since: None,
        },
        ProbeOutcome::Failure(msg) => {
            let failures = (h.consecutive_failures + 1) as u32;
            let offline = failures >= OFFLINE_AFTER_FAILURES;
            EndpointHealth {
                status: if offline { HealthStatus::Offline } else { HealthStatus::Degraded },
                last_checked: now,
                consecutive_failures: failures,
                probe_latency_ms: latency_ms,
                last_error: Some(msg),
                offline_since: if !offline {
                    None
                } else if h.offline_since is Some {
                    h.offline_since
                } else {
                    Some(now)
                },
            }
        },
    }
}

/// Whether an endpoint with health `h` has been offline for more than
/// `max_offline_secs` whole seconds at `now`. Without a recorded moment of
/// going offline, the last check stands in for it.
pub open spec fn offline_too_long(h: EndpointHealth, max_offline_secs: i64, now: i64) -> bool {
    let since = match h.offline_since {
        Some(t) => t,
        None => h.last_checked,
    };
    h.status == HealthStatus::Offline && crate::clock::whole_seconds(since, now) > max_offline_secs
}

/// From a healthy record, the third failed probe in a row takes the
/// endpoint offline, since the time of that probe; a successful probe after
/// that brings it back, with no failures and no moment of going offline.
pub proof fn third_failure_takes_offline_and_success_restores(
    h: EndpointHealth,
    e1: String,
    e2: String,
    e3: String,
    t1: i64,
    t2: i64,
    t3: i64,
    t4: i64,
    latency_ms: u64,
)
    requires
        h.consecutive_failures == 0,
        h.offline_since is None,
    ensures
        probed(h, ProbeOutcome::Failure(e1), latency_ms, t1).status == HealthStatus::Degraded,
        probed(probed(h, ProbeOutcome::Failure(e1), latency_ms, t1), ProbeOutcome::Failure(e2), latency_ms, t2).status == HealthStatus::Degraded,
        ({
            let h3 = probed(probed(probed(h, ProbeOutcome::Failure(e1), latency_ms, t1), ProbeOutcome::Failure(e2), latency_ms, t2), ProbeOutcome::Failure(e3), latency_ms, t3);
            &&& h3.status == HealthStatus::Offline
            &&& h3.offline_since == Some(t3)
            &&& h3.consecutive_failures == 3
            &&& probed(h3, ProbeOutcome::Success, latency_ms, t4).status == HealthStatus::Healthy
            &&& probed(h3, ProbeOutcome::Success, latency_ms, t4).consecutive_failures == 0
            &&& probed(h3, ProbeOutcome::Success, latency_ms, t4).offline_since is None
        }),
{
}

impl EndpointHealth {
    /// The health record of an endpoint not yet probed, checked at `now`.
    pub fn fresh_at(now: i64) -> (h: Self)
        ensures
            h == fresh_health(now),
    {
        EndpointHealth {
            status: HealthStatus::Healthy,
            last_checked: now,
            consecutive_failures: 0,
            probe_latency_ms: 0,
            last_error: None,
            offline_since: None,
        }
    }

    /// Records a probe at `now` that took `latency_ms` and ended with
    /// `outcome`.
    pub fn record_probe_at(&mut self, outcome: ProbeOutcome, latency_ms: u64, now: i64)
        requires
            can_record(*old(self), outcome),
        ensures
            *final(self) == probed(*old(self), outcome, latency_ms, now),
    {
        self.last_checked = now;
        self.probe_latency_ms = latency_ms;
        match outcome {
            ProbeOutcome::Success => {
                self.consecutive_failures = 0;
                self.status = HealthStatus::Healthy;
                self.last_error = None;
                self.offline_since = None;
            }
            ProbeOutcome::Failure(msg) => {
                self.consecutive_failures = self.consecutive_failures + 1;
                if self.consecutive_failures >= OFFLINE_AFTER_FAILURES {
                    self.status = HealthStatus::Offline;
                    if self.offline_since.is_none() {
                        self.offline_since = Some(now);
                    }
                } else {
                    self.status = HealthStatus::Degraded;
                    self.offline_since = None;
                }
                self.last_error = Some(msg);
            }
        }
    }
}

impl Default for EndpointHealth {
    /// The health record of an endpoint not yet probed, checked now.
    fn default() -> (h: Self)
        ensures
            h == fresh_health(h.last_checked),
    {
        EndpointHealth::fresh_at(utc_now_millis())
    }
}

/// A known AI service endpoint. The weight is kept as the bit pattern of
/// its `f64` value (`f64::to_bits`); headers are names and values, each
/// name once.
#[derive(Debug, Clone)]
pub struct AiEndpoint {
    pub id: String,
    pub name: String,
    pub url: String,
    pub endpoint_type: EndpointType,
    pub weight_bits: u64,
    pub tags: Vec<String>,
    pub headers: Vec<(String, String)>,
    pub health: EndpointHealth,
}

/// The bit pattern of the weight 1.0.
pub const UNIT_WEIGHT_BITS: u64 = 0x3ff0_0000_0000_0000;

/// The lower-case hexadecimal digit for `d < 16`.
pub open spec fn hex_char(d: nat) -> char {
    if d < 10 { (48 + d) as char } else { (87 + d) as char }
}

/// The `n` lowest hexadecimal digits of `v`, most significant first.
pub open spec fn hex_digits(v: nat, n: nat) -> Seq<char>
    decreases n,
{
    if n == 0 {
        Seq::empty()
    } else {
        hex_digits(v / 16, (n - 1) as nat).push(hex_char(v % 16))
    }
}

/// The text `uuid::Uuid` gives for the UUID with value `v`: its 32
/// lower-case hexadecimal digits in groups of 8, 4, 4, 4 and 12, joined by
/// hyphens.
pub open spec fn uuid_text(v: u128) -> Seq<char> {
    let h = hex_digits(v as nat, 32);
    h.subrange(0, 8) + "-"@ + h.subrange(8, 12) + "-"@ + h.subrange(12, 16) + "-"@ + h.subrange(16, 20) + "-"@ + h.subrange(20, 32)
}

/// Calls `uuid::Uuid::from_u128(v).to_string()`.
#[verifier::external_body]
fn uuid_string(v: u128) -> (r: String)
    ensures
        r@ == uuid_text(v),
{
    uuid::Uuid::from_u128(v).to_string()
}

/// Whether `ep` is the endpoint that `cfg` describes, with UUID value
/// `uuid` in its id, not yet probed and checked at `now`.
pub open spec fn from_config_entry(ep: AiEndpoint, cfg: crate::config::AiEndpoint, uuid: u128, now: i64) -> bool {
    &&& endpoint_type_named(cfg.endpoint_type@) == Some(ep.endpoint_type)
    &&& ep.id@ == cfg.name@ + "-"@ + uuid_text(uuid)
    &&& ep.name == cfg.name
    &&& ep.url == cfg.url
    &&& ep.weight_bits == cfg.weight_bits
    &&& ep.tags@ == cfg.tags@
    &&& ep.headers@ == cfg.headers@
    &&& ep.health == fresh_health(now)
}

impl AiEndpoint {
    /// The endpoint that configuration entry `cfg` describes, its id made
    /// of the configured name and the UUID with value `uuid`, checked at
    /// `now`. A type name that is no endpoint type is refused.
    pub fn from_config_with(cfg: &crate::config::AiEndpoint, uuid: u128, now: i64) -> (r: Result<AiEndpoint, String>)
        ensures
            r matches Ok(ep) ==> from_config_entry(ep, *cfg, uuid, now),
            r matches Err(e) ==> endpoint_type_named(cfg.endpoint_type@) is None && e@ == unknown_type_message(cfg.endpoint_type@),
    {
        let endpoint_type = match EndpointType::parse(cfg.endpoint_type.as_str()) {
            Ok(t) => t,
            Err(e) => {
                return Err(e);
            }
        };
        let u = uuid_string(uuid);
        let id = concat3(cfg.name.as_str(), "-", u.as_str());
        Ok(AiEndpoint {
            id,
            name: cfg.name.clone(),
            url: cfg.url.clone(),
            endpoint_type,
            weight_bits: cfg.weight_bits,
            tags: clone_texts(&cfg.tags),
            headers: clone_pairs(&cfg.headers),
            health: EndpointHealth::fresh_at(now),
        })
    }

    /// The endpoint that configuration entry `cfg` describes, with a fresh
    /// random UUID in its id, checked now.
    pub fn from_config(cfg: &crate::config::AiEndpoint) -> (r: Result<AiEndpoint, String>)
        ensures
            r matches Ok(ep) ==> exists|uuid: u128, now: i64| #[trigger] from_config_entry(ep, *cfg, uuid, now),
            r matches Err(e) ==> endpoint_type_named(cfg.endpoint_type@) is None && e@ == unknown_type_message(cfg.endpoint_type@),
    {
        let uuid = random_uuid();
        let now = utc_now_millis();
        AiEndpoint::from_config_with(cfg, uuid, now)
    }
}

/// A copy of a list of texts.
pub fn clone_texts(v: &Vec<String>) -> (r: Vec<String>)
    ensures
        r@ == v@,
{
    let mut r: Vec<String> = Vec::new();
    let mut i: usize = 0;
    while i < v.len()
        invariant
            i <= v@.len(),
            r@ == v@.subrange(0, i as int),
        decreases v@.len() - i,
    {
        r.push(v[i].clone());
        proof {
            assert(r@ =~= v@.subrange(0, i + 1));
        }
        i = i + 1;
    }
    proof {
        assert(r@ =~= v@);
    }
    r
}

/// A copy of a list of text pairs.
pub fn clone_pairs(v: &Vec<(String, String)>) -> (r: Vec<(String, String)>)
    ensures
        r@ == v@,
{
    let mut r: Vec<(String, String)> = Vec::new();
    let mut i: usize = 0;
    while i < v.len()
        invariant
            i <= v@.len(),
            r@ == v@.subrange(0, i as int),
        decreases v@.len() - i,
    {
        let pair = (v[i].0.clone(), v[i].1.clone());
        r.push(pair);
        proof {
            assert(r@ =~= v@.subrange(0, i + 1));
        }
        i = i + 1;
    }
    proof {
        assert(r@ =~= v@);
    }
    r
}

} // verus!

//! Per-endpoint circuit breaker.
//!
//! Each endpoint has its own circuit: `Closed` lets every request through,
//! `Open` refuses requests until the recovery timeout has passed since the
//! last failure, and `HalfOpen` lets a bounded number of probe requests
//! through; a success there closes the circuit and a failure reopens it.
use vstd::prelude::*;
use dashmap::DashMap;
use std::time::Instant;
use crate::clock::{monotonic_origin, nanos_since};

verus! {

/// Per-endpoint circuit state.
#[derive(Debug, Clone, Copy, PartialEq, Eq, Structural)]
pub enum CircuitState {
    Closed,
    Open,
    HalfOpen,
}

/// The circuit of one endpoint. Times are nanoseconds on the breaker's
/// monotonic clock.
#[derive(Debug, Clone, Copy)]
pub struct EndpointCircuit {
    pub state: CircuitState,
    pub failures: u32,
    pub last_failure: Option<u64>,
    pub half_open_calls: u32,
}

/// The circuit an endpoint starts with.
pub open spec fn fresh_circuit() -> EndpointCircuit {
    EndpointCircuit { state: CircuitState::Closed, failures: 0, last_failure: None, half_open_calls: 0 }
}

/// Nanoseconds from `from` to `to`, or zero when `to` is earlier.
pub open spec fn elapsed(from: u64, to: u64) -> int {
    if to >= from { to - from } else { 0 }
}

/// Whether a request is let through, and the circuit after the decision.
pub open spec fn allow_step(c: EndpointCircuit, timeout_secs: u64, half_open_max: u32, now: u64) -> (bool, EndpointCircuit) {
    match c.state {
        CircuitState::Closed => (true, c),
        CircuitState::Open => match c.last_failure {
            Some(last) => if elapsed(last, now) >= timeout_secs * 1_000_000_000 {
                (true, EndpointCircuit { state: CircuitState::HalfOpen, half_open_calls: 0, ..c })
            } else {
                (false, c)
            },
            None => (false, c),
        },
        CircuitState::HalfOpen => if c.half_open_calls < half_open_max {
            (true, EndpointCircuit { half_open_calls: (c.half_open_calls + 1) as u32, ..c })
        } else {
            (false, c)
        },
    }
}

/// The circuit after a recorded success.
pub open spec fn success_step(c: EndpointCircuit) -> EndpointCircuit {
    match c.state {
        CircuitState::HalfOpen => EndpointCircuit { state: CircuitState::Closed, failures: 0, last_failure: None, ..c },
        CircuitState::Closed => EndpointCircuit { failures: 0, ..c },
        CircuitState::Open => c,
    }
}

/// The circuit after a recorded failure at time `now`.
pub open spec fn failure_step(c: EndpointCircuit, threshold: u32, now: u64) -> EndpointCircuit {
    let failures = (c.failures + 1) as u32;
    let state = if c.state == CircuitState::HalfOpen {
        CircuitState::Open
    } else if failures >= threshold {
        CircuitState::Open
    } else {
        c.state
    };
    EndpointCircuit { state, failures, last_failure: Some(now), ..c }
}

/// The circuit recorded for `id`, or a fresh one.
pub open spec fn circuit_of(m: Map<Seq<char>, EndpointCircuit>, id: Seq<char>) -> EndpointCircuit {
    if m.contains_key(id) { m[id] } else { fresh_circuit() }
}

/// A table with no circuits.
pub open spec fn no_circuits() -> Map<Seq<char>, EndpointCircuit> {
    Map::empty()
}

/// What the breaker's table holds: endpoint id to its circuit.
pub uninterp spec fn circuit_table(m: DashMap<String, EndpointCircuit>) -> Map<Seq<char>, EndpointCircuit>;

/// `DashMap::new`: an empty table.
#[verifier::external_body]
fn table_new() -> (r: DashMap<String, EndpointCircuit>)
    ensures
        circuit_table(r) == no_circuits(),
{
    DashMap::new()
}

/// `DashMap::get`, copying the circuit out: the entry for `key`, if any.
#[verifier::external_body]
fn table_get(m: &DashMap<String, EndpointCircuit>, key: &str) -> (r: Option<EndpointCircuit>)
    ensures
        r == (if circuit_table(*m).contains_key(key@) { Some(circuit_table(*m)[key@]) } else { None }),
{
    m.get(key).map(|e| *e)
}

/// `DashMap::insert`: the entry for `key` becomes `v`, the others stay.
#[verifier::external_body]
fn table_insert(m: &mut DashMap<String, EndpointCircuit>, key: String, v: EndpointCircuit)
    ensures
        circuit_table(*final(m)) == circuit_table(*old(m)).insert(key@, v),
{
    m.insert(key, v);
}

/// `DashMap::iter`, copying each entry out: every entry once, in the
/// table's own order.
#[verifier::external_body]
fn table_entries(m: &DashMap<String, EndpointCircuit>) -> (r: Vec<CircuitEntry>)
    ensures
        r@.len() == circuit_table(*m).dom().len(),
        (forall|i: int| 0 <= i < r@.len() ==> #[trigger] circuit_table(*m).contains_key(r@[i].0@)
            && circuit_table(*m)[r@[i].0@] == r@[i].1),
        (forall|i: int, j: int| 0 <= i < j < r@.len() ==> r@[i].0@ != r@[j].0@),
        (forall|k: Seq<char>| #[trigger] circuit_table(*m).contains_key(k) ==> exists|i: int| 0 <= i < r@.len() && r@[i].0@ == k),
{
    m.iter().map(|e| (e.key().clone(), *e.value())).collect()
}

/// `e` reports the state and failure count that `m` holds for its endpoint.
pub open spec fn reports(m: Map<Seq<char>, EndpointCircuit>, e: (String, CircuitState, u32)) -> bool {
    &&& m.contains_key(e.0@)
    &&& m[e.0@].state == e.1
    &&& m[e.0@].failures == e.2
}

/// The circuit after `n` failures recorded at time `now` on a fresh circuit.
pub open spec fn after_failures(n: nat, threshold: u32, now: u64) -> EndpointCircuit
    decreases n,
{
    if n == 0 {
        fresh_circuit()
    } else {
        failure_step(after_failures((n - 1) as nat, threshold, now), threshold, now)
    }
}

/// A closed circuit lets every request through and is left as it was.
pub proof fn closed_circuit_allows(c: EndpointCircuit, timeout_secs: u64, half_open_max: u32, now: u64)
    requires
        c.state == CircuitState::Closed,
    ensures
        allow_step(c, timeout_secs, half_open_max, now) == (true, c),
{
}

/// An open circuit refuses requests until the recovery timeout has passed
/// since its last failure.
pub proof fn open_circuit_refuses_before_timeout(c: EndpointCircuit, timeout_secs: u64, half_open_max: u32, now: u64)
    requires
        c.state == CircuitState::Open,
        c.last_failure is Some,
        elapsed(c.last_failure->0, now) < timeout_secs * 1_000_000_000,
    ensures
        allow_step(c, timeout_secs, half_open_max, now) == (false, c),
{
}

/// Once the recovery timeout has passed, an open circuit lets one request
/// through and becomes half-open with no probe calls counted.
pub proof fn open_circuit_half_opens_after_timeout(c: EndpointCircuit, timeout_secs: u64, half_open_max: u32, now: u64)
    requires
        c.state == CircuitState::Open,
        c.last_failure is Some,
        elapsed(c.last_failure->0, now) >= timeout_secs * 1_000_000_000,
    ensures
        allow_step(c, timeout_secs, half_open_max, now).0,
        allow_step(c, timeout_secs, half_open_max, now).1.state == CircuitState::HalfOpen,
        allow_step(c, timeout_secs, half_open_max, now).1.half_open_calls == 0,
{
}

/// A half-open circuit lets through at most `half_open_max` requests: each
/// one counts, and none passes once the count has reached the limit.
pub proof fn half_open_calls_are_bounded(c: EndpointCircuit, timeout_secs: u64, half_open_max: u32, now: u64)
    requires
        c.state == CircuitState::HalfOpen,
    ensures
        c.half_open_calls >= half_open_max ==> allow_step(c, timeout_secs, half_open_max, now) == (false, c),
        c.half_open_calls < half_open_max ==> allow_step(c, timeout_secs, half_open_max, now).1.half_open_calls == c.half_open_calls + 1,
        allow_step(c, timeout_secs, half_open_max, now).1.half_open_calls <= (if c.half_open_calls > half_open_max { c.half_open_calls } else { half_open_max }),
{
}

/// A success while half-open closes the circuit and forgets the failures.
pub proof fn half_open_success_closes(c: EndpointCircuit)
    requires
        c.state == CircuitState::HalfOpen,
    ensures
        success_step(c).state == CircuitState::Closed,
        success_step(c).failures == 0,
        success_step(c).last_failure is None,
{
}

/// A failure while half-open reopens the circuit, whatever the threshold.
pub proof fn half_open_failure_reopens(c: EndpointCircuit, threshold: u32, now: u64)
    requires
        c.state == CircuitState::HalfOpen,
        c.failures < u32::MAX,
    ensures
        failure_step(c, threshold, now).state == CircuitState::Open,
        failure_step(c, threshold, now).last_failure == Some(now),
{
}

/// A success while closed resets the failure count and keeps it closed.
pub proof fn closed_success_resets_failures(c: EndpointCircuit)
    requires
        c.state == CircuitState::Closed,
    ensures
        success_step(c).state == CircuitState::Closed,
        success_step(c).failures == 0,
{
}

/// From a fresh circuit, `n` consecutive failures open it exactly when `n`
/// reaches the failure threshold (and at least one failure was recorded).
pub proof fn consecutive_failures_open_at_threshold(n: nat, threshold: u32, now: u64)
    requires
        n < u32::MAX,
    ensures
        after_failures(n, threshold, now).failures == n,
        after_failures(n, threshold, now).state == (if n >= 1 && n >= threshold { CircuitState::Open } else { CircuitState::Closed }),
    decreases n,
{
    if n > 0 {
        consecutive_failures_open_at_threshold((n - 1) as nat, threshold, now);
    }
}

/// One table entry: an endpoint id and its circuit.
pub type CircuitEntry = (String, EndpointCircuit);

/// Per-endpoint circuit breaker configuration and state.
#[derive(Debug)]
pub struct CircuitBreaker {
    state: DashMap<String, EndpointCircuit>,
    failure_threshold: u32,
    recovery_timeout_secs: u64,
    half_open_max_calls: u32,
    origin: Instant,
}

impl CircuitBreaker {
    /// The circuits the breaker knows, by endpoint id.
    pub closed spec fn circuits(&self) -> Map<Seq<char>, EndpointCircuit> {
        circuit_table(self.state)
    }

    pub closed spec fn threshold(&self) -> u32 {
        self.failure_threshold
    }

    pub closed spec fn timeout_secs(&self) -> u64 {
        self.recovery_timeout_secs
    }

    pub closed spec fn half_open_max(&self) -> u32 {
        self.half_open_max_calls
    }

    /// The configuration is unchanged from `self` to `other`.
    pub open spec fn same_config(&self, other: &Self) -> bool {
        &&& other.threshold() == self.threshold()
        &&& other.timeout_secs() == self.timeout_secs()
        &&& other.half_open_max() == self.half_open_max()
    }

    pub fn new(failure_threshold: u32, recovery_timeout_secs: u64, half_open_max_calls: u32) -> (r: Self)
        ensures
            r.circuits() == Map::<Seq<char>, EndpointCircuit>::empty(),
            r.threshold() == failure_threshold,
            r.timeout_secs() == recovery_timeout_secs,
            r.half_open_max() == half_open_max_calls,
    {
        CircuitBreaker {
            state: table_new(),
            failure_threshold,
            recovery_timeout_secs,
            half_open_max_calls,
            origin: monotonic_origin(),
        }
    }

    /// Decides whether a request to `endpoint_id` is let through at time
    /// `now` (nanoseconds on the breaker's clock), and records the decision.
    pub fn allow_at(&mut self, endpoint_id: &str, now: u64) -> (allowed: bool)
        ensures
            allowed == allow_step(circuit_of(old(self).circuits(), endpoint_id@), old(self).timeout_secs(), old(self).half_open_max(), now).0,
            final(self).circuits() == old(self).circuits().insert(
                endpoint_id@,
                allow_step(circuit_of(old(self).circuits(), endpoint_id@), old(self).timeout_secs(), old(self).half_open_max(), now).1,
            ),
            old(self).same_config(final(self)),
    {
        let mut entry = match table_get(&self.state, endpoint_id) {
            Some(c) => c,
            None => EndpointCircuit { state: CircuitState::Closed, failures: 0, last_failure: None, half_open_calls: 0 },
        };
        let allowed = match entry.state {
            CircuitState::Closed => true,
            CircuitState::Open => {
                match entry.last_failure {
                    Some(last) => {
                        let waited: u64 = if now >= last { now - last } else { 0 };
                        if waited as u128 >= (self.recovery_timeout_secs as u128) * 1_000_000_000u128 {
                            entry.state = CircuitState::HalfOpen;
                            entry.half_open_calls = 0;
                            true
                        } else {
                            false
                        }
                    }
                    None => false,
                }
            }
            CircuitState::HalfOpen => {
                if entry.half_open_calls < self.half_open_max_calls {
                    entry.half_open_calls = entry.half_open_calls + 1;
                    true
                } else {
                    false
                }
            }
        };
        table_insert(&mut self.state, endpoint_id.to_string(), entry);
        allowed
    }

    /// The breaker's clock: nanoseconds since the breaker was made.
    pub fn clock(&self) -> (now: u64) {
        nanos_since(&self.origin)
    }

    /// Checks whether a request should be allowed through for this endpoint,
    /// reading the breaker's clock.
    pub fn allow(&mut self, endpoint_id: &str) -> (allowed: bool)
        ensures
            exists|now: u64| {
                &&& allowed == allow_step(circuit_of(old(self).circuits(), endpoint_id@), old(self).timeout_secs(), old(self).half_open_max(), now).0
                &&& final(self).circuits() == old(self).circuits().insert(
                    endpoint_id@,
                    allow_step(circuit_of(old(self).circuits(), endpoint_id@), old(self).timeout_secs(), old(self).half_open_max(), now).1,
                )
            },
            old(self).same_config(final(self)),
    {
        let now = nanos_since(&self.origin);
        self.allow_at(endpoint_id, now)
    }

    /// Records a success for this endpoint. An endpoint without a circuit
    /// is left without one.
    pub fn record_success(&mut self, endpoint_id: &str)
        ensures
            final(self).circuits() == (if old(self).circuits().contains_key(endpoint_id@) {
                old(self).circuits().insert(endpoint_id@, success_step(old(self).circuits()[endpoint_id@]))
            } else {
                old(self).circuits()
            }),
            old(self).same_config(final(self)),
    {
        match table_get(&self.state, endpoint_id) {
            Some(entry) => {
                let mut entry = entry;
                match entry.state {
                    CircuitState::HalfOpen => {
                        entry.state = CircuitState::Closed;
                        entry.failures = 0;
                        entry.last_failure = None;
                    }
                    CircuitState::Closed => {
                        entry.failures = 0;
                    }
                    CircuitState::Open => {}
                }
                table_insert(&mut self.state, endpoint_id.to_string(), entry);
                proof {
                    assert(old(self).circuits().insert(endpoint_id@, old(self).circuits()[endpoint_id@])
                        =~= old(self).circuits()) by {
                        if entry.state == CircuitState::Open {}
                    }
                }
            }
            None => {}
        }
    }

    /// Records a failure for this endpoint at time `now`.
    pub fn record_failure_at(&mut self, endpoint_id: &str, now: u64)
        requires
            circuit_of(old(self).circuits(), endpoint_id@).failures < u32::MAX,
        ensures
            final(self).circuits() == old(self).circuits().insert(
                endpoint_id@,
                failure_step(circuit_of(old(self).circuits(), endpoint_id@), old(self).threshold(), now),
            ),
            old(self).same_config(final(self)),
    {
        let mut entry = match table_get(&self.state, endpoint_id) {
            Some(c) => c,
            None => EndpointCircuit { state: CircuitState::Closed, failures: 0, last_failure: None, half_open_calls: 0 },
        };
        entry.failures = entry.failures + 1;
        entry.last_failure = Some(now);
        if entry.state == CircuitState::HalfOpen {
            entry.state = CircuitState::Open;
        } else if entry.failures >= self.failure_threshold {
            entry.state = CircuitState::Open;
        }
        table_insert(&mut self.state, endpoint_id.to_string(), entry);
    }

    /// Records a failure for this endpoint, reading the breaker's clock.
    pub fn record_failure(&mut self, endpoint_id: &str)
        requires
            circuit_of(old(self).circuits(), endpoint_id@).failures < u32::MAX,
        ensures
            exists|now: u64| final(self).circuits() == old(self).circuits().insert(
                endpoint_id@,
                failure_step(circuit_of(old(self).circuits(), endpoint_id@), old(self).threshold(), now),
            ),
            old(self).same_config(final(self)),
    {
        let now = nanos_since(&self.origin);
        self.record_failure_at(endpoint_id, now)
    }

    /// The failures recorded for this endpoint (zero when it has no circuit).
    pub fn failures(&self, endpoint_id: &str) -> (n: u32)
        ensures
            n == circuit_of(self.circuits(), endpoint_id@).failures,
    {
        match table_get(&self.state, endpoint_id) {
            Some(c) => c.failures,
            None => 0,
        }
    }

    pub fn get_state(&self, endpoint_id: &str) -> (s: CircuitState)
        ensures
            s == circuit_of(self.circuits(), endpoint_id@).state,
    {
        match table_get(&self.state, endpoint_id) {
            Some(c) => c.state,
            None => CircuitState::Closed,
        }
    }

    /// Every known endpoint once, with its state and failure count, in the
    /// table's own order.
    pub fn diagnostics(&self) -> (r: Vec<(String, CircuitState, u32)>)
        ensures
            r@.len() == self.circuits().dom().len(),
            forall|i: int| 0 <= i < r@.len() ==> reports(self.circuits(), #[trigger] r@[i]),
            forall|i: int, j: int| 0 <= i < j < r@.len() ==> r@[i].0@ != r@[j].0@,
            forall|k: Seq<char>| #[trigger] self.circuits().contains_key(k) ==> exists|i: int| 0 <= i < r@.len() && r@[i].0@ == k,
    {
        let entries = table_entries(&self.state);
        let mut out: Vec<(String, CircuitState, u32)> = Vec::new();
        let mut i: usize = 0;
        while i < entries.len()
            invariant
                i <= entries@.len(),
                out@.len() == i,
                forall|j: int| 0 <= j < i ==> out@[j].0@ == entries@[j].0@ && out@[j].1 == entries@[j].1.state
                    && out@[j].2 == entries@[j].1.failures,
            decreases entries@.len() - i,
        {
            let (id, c) = (&entries[i].0, entries[i].1);
            out.push((id.clone(), c.state, c.failures));
            i = i + 1;
        }
        proof {
            assert forall|i: int| 0 <= i < out@.len() implies reports(self.circuits(), #[trigger] out@[i]) by {
                assert(self.circuits().contains_key(entries@[i].0@));
            }
            assert forall|k: Seq<char>| #[trigger] self.circuits().contains_key(k) implies exists|i: int| 0 <= i < out@.len() && out@[i].0@ == k by {
                let i = choose|i: int| 0 <= i < entries@.len() && entries@[i].0@ == k;
                assert(out@[i].0@ == k);
            }
        }
        out
    }
}

} // verus!

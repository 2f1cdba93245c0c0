//! Configuration sections of the hub and their defaults.
use vstd::prelude::*;
use vstd::string::*;
use crate::text::{parse_decimal, parse_unsigned, same_text};

verus! {

pub fn default_max_agents() -> (r: usize)
    ensures
        r == 100,
{
    100
}

pub fn default_heartbeat() -> (r: u64)
    ensures
        r == 30,
{
    30
}

pub fn default_probe() -> (r: u64)
    ensures
        r == 30,
{
    30
}

pub fn default_database_url() -> (r: String)
    ensures
        r@ == "sqlite:xfiles.db"@,
{
    String::from_str("sqlite:xfiles.db")
}

pub fn default_model() -> (r: String)
    ensures
        r@ == "kimi-k2.6"@,
{
    String::from_str("kimi-k2.6")
}

pub fn default_true() -> (r: bool)
    ensures
        r,
{
    true
}

pub fn default_entanglement() -> (r: usize)
    ensures
        r == 10,
{
    10
}

pub fn default_min_samples() -> (r: u64)
    ensures
        r == 5,
{
    5
}

/// The well-known ports scanned for AI services.
pub open spec fn well_known_ports() -> Seq<u16> {
    seq![3000u16, 8080u16, 7777u16, 8000u16, 11434u16, 9000u16]
}

pub fn default_ports() -> (r: Vec<u16>)
    ensures
        r@ == well_known_ports(),
{
    let mut v = Vec::new();
    v.push(3000u16);
    v.push(8080u16);
    v.push(7777u16);
    v.push(8000u16);
    v.push(11434u16);
    v.push(9000u16);
    proof {
        assert(v@ =~= well_known_ports());
    }
    v
}

pub fn default_scan_interval() -> (r: u64)
    ensures
        r == 60,
{
    60
}

pub fn default_priority() -> (r: i32)
    ensures
        r == 100,
{
    100
}

pub fn default_max_requests() -> (r: u64)
    ensures
        r == 100,
{
    100
}

pub fn default_window_secs() -> (r: u64)
    ensures
        r == 60,
{
    60
}

pub fn default_failure_threshold() -> (r: u32)
    ensures
        r == 5,
{
    5
}

pub fn default_recovery_timeout() -> (r: u64)
    ensures
        r == 30,
{
    30
}

pub fn default_half_open_max() -> (r: u32)
    ensures
        r == 3,
{
    3
}

/// Discovery of AI services on well-known ports and in Docker.
#[derive(Debug, Clone)]
pub struct DiscoveryConfig {
    pub scan_ports: Vec<u16>,
    pub scan_interval_secs: u64,
    pub docker_enabled: bool,
}

impl Default for DiscoveryConfig {
    fn default() -> (r: Self)
        ensures
            r.scan_ports@ == well_known_ports(),
            r.scan_interval_secs == 60,
            !r.docker_enabled,
    {
        DiscoveryConfig { scan_ports: default_ports(), scan_interval_secs: default_scan_interval(), docker_enabled: false }
    }
}

/// A configured AI endpoint. The weight is kept as the bit pattern of its
/// `f64` value (`f64::to_bits`).
#[derive(Debug, Clone)]
pub struct AiEndpoint {
    pub name: String,
    pub url: String,
    pub endpoint_type: String,
    pub weight_bits: u64,
    pub tags: Vec<String>,
    pub headers: Vec<(String, String)>,
}

#[derive(Debug, Clone)]
pub struct AiConfig {
    pub endpoints: Vec<AiEndpoint>,
}

impl Default for AiConfig {
    fn default() -> (r: Self)
        ensures
            r.endpoints@.len() == 0,
    {
        AiConfig { endpoints: Vec::new() }
    }
}

/// A configured plumber rule.
#[derive(Debug, Clone)]
pub struct PlumberRule {
    pub name: String,
    pub pattern: String,
    pub destination: String,
    pub priority: i32,
    pub header_match: Option<Vec<(String, String)>>,
}

#[derive(Debug, Clone)]
pub struct PlumberConfig {
    pub rules: Vec<PlumberRule>,
}

impl Default for PlumberConfig {
    fn default() -> (r: Self)
        ensures
            r.rules@.len() == 0,
    {
        PlumberConfig { rules: Vec::new() }
    }
}

/// Bearer tokens for the API and for agent connections.
#[derive(Debug, Clone)]
pub struct AuthConfig {
    pub api_key: Option<String>,
    pub agent_token: Option<String>,
}

impl Default for AuthConfig {
    fn default() -> (r: Self)
        ensures
            r.api_key is None,
            r.agent_token is None,
    {
        AuthConfig { api_key: None, agent_token: None }
    }
}

#[derive(Debug, Clone)]
pub struct RateLimitConfig {
    pub enabled: bool,
    pub max_requests: u64,
    pub window_secs: u64,
}

impl Default for RateLimitConfig {
    fn default() -> (r: Self)
        ensures
            r.enabled,
            r.max_requests == 100,
            r.window_secs == 60,
    {
        RateLimitConfig { enabled: true, max_requests: default_max_requests(), window_secs: default_window_secs() }
    }
}

#[derive(Debug, Clone)]
pub struct CircuitBreakerConfig {
    pub enabled: bool,
    pub failure_threshold: u32,
    pub recovery_timeout_secs: u64,
    pub half_open_max_calls: u32,
}

impl Default for CircuitBreakerConfig {
    fn default() -> (r: Self)
        ensures
            r.enabled,
            r.failure_threshold == 5,
            r.recovery_timeout_secs == 30,
            r.half_open_max_calls == 3,
    {
        CircuitBreakerConfig {
            enabled: true,
            failure_threshold: default_failure_threshold(),
            recovery_timeout_secs: default_recovery_timeout(),
            half_open_max_calls: default_half_open_max(),
        }
    }
}

#[derive(Debug, Clone)]
pub struct TlsConfig {
    pub enabled: bool,
    pub cert_path: Option<String>,
    pub key_path: Option<String>,
    pub client_ca_path: Option<String>,
}

impl Default for TlsConfig {
    fn default() -> (r: Self)
        ensures
            !r.enabled,
            r.cert_path is None,
            r.key_path is None,
            r.client_ca_path is None,
    {
        TlsConfig { enabled: false, cert_path: None, key_path: None, client_ca_path: None }
    }
}

/// What `bool::from_str` gives for `s`, with `true` for any other text.
pub open spec fn quantum_flag(s: Seq<char>) -> bool {
    s != "false"@
}

/// Reads the `XFILES_QUANTUM_ENABLED` override: `"false"` turns quantum
/// routing off; `"true"` and any unparsable text leave it on.
pub fn parse_quantum_enabled(s: &str) -> (r: bool)
    ensures
        r == quantum_flag(s@),
{
    !same_text(s, "false")
}

/// Reads the `XFILES_MAX_AGENTS` override as `usize::from_str` does.
pub fn parse_max_agents(s: &str) -> (r: Option<usize>)
    ensures
        r matches Some(v) ==> parse_unsigned(s@, usize::MAX as nat) == Some(v as nat),
        r is None ==> parse_unsigned(s@, usize::MAX as nat) is None,
{
    match parse_decimal(s, usize::MAX as u64) {
        Some(v) => Some(v as usize),
        None => None,
    }
}

/// The agent limit and the quantum switch after the environment's
/// overrides, each given when its variable is set: `XFILES_MAX_AGENTS`
/// replaces the limit and must read as a number (else `None`);
/// `XFILES_QUANTUM_ENABLED` turns quantum routing off exactly when it reads
/// `false`.
pub fn apply_overrides(
    max_agents: usize,
    quantum_enabled: bool,
    max_override: Option<&str>,
    quantum_override: Option<&str>,
) -> (r: Option<(usize, bool)>)
    ensures
        r is None <==> (max_override matches Some(m) && parse_unsigned(m@, usize::MAX as nat) is None),
        r matches Some(v) ==> {
            &&& v.0 == (match max_override {
                Some(m) => parse_unsigned(m@, usize::MAX as nat)->0,
                None => max_agents as nat,
            })
            &&& v.1 == (match quantum_override {
                Some(q) => quantum_flag(q@),
                None => quantum_enabled,
            })
        },
{
    let agents = match max_override {
        Some(m) => match parse_max_agents(m) {
            Some(v) => v,
            None => return None,
        },
        None => max_agents,
    };
    let quantum = match quantum_override {
        Some(q) => parse_quantum_enabled(q),
        None => quantum_enabled,
    };
    Some((agents, quantum))
}

} // verus!

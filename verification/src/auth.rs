//! Bearer-token authentication of API requests and agent connections.
//!
//! The caller reads the request's path and its `Authorization` header; the
//! decisions are made here.
use vstd::prelude::*;
use crate::text::{has_prefix, same_text, starts_with};

verus! {

/// Authentication configuration.
#[derive(Debug, Clone)]
pub struct AuthConfig {
    /// API key required for proxy and admin endpoints.
    pub api_key: Option<String>,
    /// Optional token required for WebSocket agent connections.
    pub agent_token: Option<String>,
}

impl Default for AuthConfig {
    fn default() -> (r: Self)
        ensures
            r.api_key is None,
            r.agent_token is None,
    {
        AuthConfig { api_key: None, agent_token: None }
    }
}

/// Whether requests to `path` need no key: the health check, the metrics
/// and the agent WebSocket routes.
pub open spec fn is_public(path: Seq<char>) -> bool {
    path == "/health"@ || path == "/metrics"@ || starts_with(path, "/ws/"@)
}

/// Whether an `Authorization` header with value `header` presents the
/// bearer token `token`.
pub open spec fn presents_token(header: Option<Seq<char>>, token: Seq<char>) -> bool {
    match header {
        Some(h) => starts_with(h, "Bearer "@) && h.subrange(7, h.len() as int) == token,
        None => false,
    }
}

/// The character view of an optional header value.
pub open spec fn header_text(header: Option<&str>) -> Option<Seq<char>> {
    match header {
        Some(h) => Some(h@),
        None => None,
    }
}

/// Whether requests to `path` need no key.
pub fn is_public_path(path: &str) -> (r: bool)
    ensures
        r == is_public(path@),
{
    same_text(path, "/health") || same_text(path, "/metrics") || has_prefix(path, "/ws/")
}

/// Whether the `Authorization` header value `header` presents the bearer
/// token `token`.
pub fn bearer_matches(header: Option<&str>, token: &str) -> (r: bool)
    ensures
        r == presents_token(header_text(header), token@),
{
    match header {
        Some(h) => {
            if !has_prefix(h, "Bearer ") {
                return false;
            }
            proof {
                reveal_strlit("Bearer ");
            }
            let n = crate::text::chars_of(h).len();
            let rest = h.substring_char(7, n);
            same_text(rest, token)
        }
        None => false,
    }
}

/// Whether a request to `path` with `Authorization` header value `header`
/// may pass: public routes always may; with an API key configured the
/// others must present it, and without one every request may.
pub open spec fn api_request_allowed(config: AuthConfig, path: Seq<char>, header: Option<Seq<char>>) -> bool {
    is_public(path) || match config.api_key {
        Some(k) => presents_token(header, k@),
        None => true,
    }
}

/// Whether a request to `path` with `Authorization` header value `header`
/// may pass the API key check; a refused request is answered
/// `401 Unauthorized`.
pub fn check_api_key(config: &AuthConfig, path: &str, header: Option<&str>) -> (r: bool)
    ensures
        r == api_request_allowed(*config, path@, header_text(header)),
{
    if is_public_path(path) {
        return true;
    }
    match &config.api_key {
        Some(key) => bearer_matches(header, key.as_str()),
        None => true,
    }
}

/// Whether an agent connection with `Authorization` header value `header`
/// may open: with an agent token configured it must present it, and
/// without one every connection may.
pub fn check_agent_token(config: &AuthConfig, header: Option<&str>) -> (r: bool)
    ensures
        r == match config.agent_token {
            Some(t) => presents_token(header_text(header), t@),
            None => true,
        },
{
    match &config.agent_token {
        Some(token) => bearer_matches(header, token.as_str()),
        None => true,
    }
}

/// A header presents a token exactly when it is `Bearer ` followed by the
/// token.
pub proof fn bearer_header_is_exact(header: Seq<char>, token: Seq<char>)
    ensures
        presents_token(Some(header), token) <==> header == "Bearer "@ + token,
{
    reveal_strlit("Bearer ");
    if header == "Bearer "@ + token {
        assert(header.subrange(0, 7) =~= "Bearer "@);
        assert(header.subrange(7, header.len() as int) =~= token);
    }
    if presents_token(Some(header), token) {
        assert(header =~= header.subrange(0, 7) + header.subrange(7, header.len() as int));
    }
}

} // verus!

use xfiles::auth::{bearer_matches, check_agent_token, check_api_key, is_public_path, AuthConfig};

fn with_key() -> AuthConfig {
    AuthConfig { api_key: Some("secret".into()), agent_token: None }
}

#[test]
fn test_auth_allows_public_routes() {
    let auth_config = with_key();
    assert!(check_api_key(&auth_config, "/health", None));
}

#[test]
fn test_auth_blocks_missing_key() {
    let auth_config = with_key();
    assert!(!check_api_key(&auth_config, "/protected", None));
}

#[test]
fn test_auth_allows_valid_key() {
    let auth_config = with_key();
    assert!(check_api_key(&auth_config, "/protected", Some("Bearer secret")));
}

#[test]
fn public_paths_are_exactly_health_metrics_and_ws() {
    assert!(is_public_path("/health"));
    assert!(is_public_path("/metrics"));
    assert!(is_public_path("/ws/agent-1"));
    assert!(!is_public_path("/ws"));
    assert!(!is_public_path("/healthz"));
    assert!(!is_public_path("/api/agents"));
}

#[test]
fn wrong_or_malformed_bearer_is_refused() {
    let cfg = with_key();
    assert!(!check_api_key(&cfg, "/protected", Some("Bearer wrong")));
    assert!(!check_api_key(&cfg, "/protected", Some("secret")));
    assert!(!check_api_key(&cfg, "/protected", Some("bearer secret")));
    assert!(!check_api_key(&cfg, "/protected", Some("Bearer secret ")));
    assert!(bearer_matches(Some("Bearer "), ""));
}

#[test]
fn without_a_key_everything_passes() {
    let cfg = AuthConfig::default();
    assert!(check_api_key(&cfg, "/protected", None));
    assert!(check_agent_token(&cfg, None));
}

#[test]
fn agent_token_is_checked_when_configured() {
    let cfg = AuthConfig { api_key: None, agent_token: Some("tok".into()) };
    assert!(check_agent_token(&cfg, Some("Bearer tok")));
    assert!(!check_agent_token(&cfg, Some("Bearer other")));
    assert!(!check_agent_token(&cfg, None));
}

use xfiles::ai::endpoints::{AiEndpoint, EndpointHealth, EndpointType, HealthStatus};
use xfiles::ai::table::EndpointTable;
use xfiles::circuit::CircuitBreaker;
use xfiles::mcp::McpRegistry;
use xfiles::message::Message;
use xfiles::plumber::Plumber;
use xfiles::router::{
    default_pipeline, CircuitAwareStage, FallbackRoutingStage, QuantumChooser, QuantumRoutingStage,
    RouterStage, RoutingContext,
};

/// Picks a fixed endpoint, whatever the candidates.
struct FixedPick(&'static str);

impl QuantumChooser for FixedPick {
    fn pick(&mut self, _conversation_id: u128, _candidates: &Vec<String>) -> Option<String> {
        Some(self.0.to_string())
    }
}

/// Picks the last candidate offered.
struct LastPick;

impl QuantumChooser for LastPick {
    fn pick(&mut self, _conversation_id: u128, candidates: &Vec<String>) -> Option<String> {
        candidates.last().cloned()
    }
}

fn endpoint(id: &str, name: &str, url: &str) -> AiEndpoint {
    AiEndpoint {
        id: id.into(),
        name: name.into(),
        url: url.into(),
        endpoint_type: EndpointType::Inference,
        weight_bits: 1.0f64.to_bits(),
        tags: vec![],
        headers: vec![],
        health: EndpointHealth::fresh_at(0),
    }
}

fn build_test_endpoints() -> EndpointTable {
    let mut map = EndpointTable::new();
    map.insert(endpoint("ep-a", "alpha", "http://localhost:8001"));
    map.insert(endpoint("ep-b", "beta", "http://localhost:8002"));
    map
}

fn llm_request() -> Message {
    Message::new("test".to_string(), "/ai".to_string(), "llm_request".to_string())
}

fn two_rule_plumber() -> Plumber {
    let mut plumber = Plumber::new();
    plumber.add_rule("ai", "llm_request", "ep-a", 1, None).unwrap();
    plumber.add_rule("ai", "llm_request", "ep-b", 1, None).unwrap();
    plumber
}

#[test]
fn test_routing_pipeline_selects_endpoint() {
    let mcp = McpRegistry::new();
    let mut pipeline = default_pipeline(mcp, two_rule_plumber(), None, None);

    let msg = llm_request();
    let decision = pipeline.route(&msg);

    assert!(decision.selected.is_some(), "pipeline should select an endpoint");
    let selected = decision.selected.unwrap();
    assert!(selected == "ep-a" || selected == "ep-b", "selected should be one of the test endpoints");
}

#[test]
fn test_circuit_breaker_filters_unhealthy() {
    let mut endpoints = build_test_endpoints();
    let mut ep = endpoints.get("ep-a").unwrap();
    ep.health.status = HealthStatus::Offline;
    endpoints.insert(ep);

    let circuit = CircuitBreaker::new(3, 60, 1);
    let stage = CircuitAwareStage::new(circuit, endpoints);
    let mut pipeline = default_pipeline(McpRegistry::new(), two_rule_plumber(), None, Some(stage));

    let msg = llm_request();
    let decision = pipeline.route(&msg);

    assert_eq!(decision.selected, Some("ep-b".into()), "offline endpoint should be filtered out");
}

#[test]
fn decision_explains_each_stage() {
    let mut pipeline = default_pipeline(McpRegistry::new(), two_rule_plumber(), None, None);
    let decision = pipeline.route(&llm_request());
    assert_eq!(decision.selected, Some("ep-a".to_string()));
    assert_eq!(decision.candidates, vec!["ep-a".to_string(), "ep-b".to_string()]);
    assert_eq!(decision.explanation, "plumber matched 2 rule(s); fallback selected ep-a");
}

#[test]
fn mcp_tool_calls_go_to_the_tool_endpoint() {
    let mut mcp = McpRegistry::new();
    mcp.register(endpoint("mcp-1", "tools", "http://localhost:9000"));
    mcp.index_tools("mcp-1", &vec!["search".to_string()]);
    let mut pipeline = default_pipeline(mcp, two_rule_plumber(), None, None);
    let msg = Message::new("a".into(), "/x".into(), "mcp_tool_call".into())
        .with_data("{\"tool\":\"search\",\"arguments\":{\"q\":1}}".to_string());
    let decision = pipeline.route(&msg);
    assert_eq!(decision.selected, Some("mcp-1".to_string()));
    assert_eq!(decision.explanation, "mcp tool 'search' → mcp-1");
    assert!(decision.candidates.is_empty());
}

#[test]
fn fallback_skips_rejected_candidates() {
    let mut ctx = RoutingContext::new(vec!["a".into(), "b".into(), "c".into()]);
    ctx.rejected = vec!["a".into()];
    assert_eq!(ctx.valid_candidates(), vec!["b".to_string(), "c".to_string()]);
    let mut fallback = FallbackRoutingStage;
    let msg = llm_request();
    assert!(fallback.apply(&msg, &mut ctx));
    assert_eq!(ctx.selected, Some("b".to_string()));

    let mut empty = RoutingContext::new(vec![]);
    assert!(!fallback.apply(&msg, &mut empty));
    assert_eq!(empty.into_decision().explanation, "fallback: no candidates available");
}

#[test]
fn into_decision_joins_explanations() {
    let mut ctx = RoutingContext::new(vec!["x".into()]);
    ctx.explanation = vec!["one".into(), "two".into(), "three".into()];
    ctx.selected = Some("x".into());
    let d = ctx.into_decision();
    assert_eq!(d.explanation, "one; two; three");
    assert_eq!(d.selected, Some("x".to_string()));
    assert_eq!(d.candidates, vec!["x".to_string()]);
}

#[test]
fn quantum_choice_is_recorded() {
    let mut ctx = RoutingContext::new(vec!["a".into()]);
    assert!(ctx.apply_quantum_choice(Some("a".into())));
    assert!(!ctx.apply_quantum_choice(None));
    ctx.note_no_valid_candidates();
    assert_eq!(
        ctx.into_decision().explanation,
        "quantum selected a; quantum: no selection; quantum: no valid candidates"
    );
}

#[test]
fn open_circuits_are_rejected_and_counted() {
    let mut endpoints = build_test_endpoints();
    endpoints.insert(endpoint("ep-c", "gamma", "http://localhost:8003"));
    let mut circuit = CircuitBreaker::new(1, 60, 1);
    circuit.record_failure_at("ep-a", 0);
    let mut ctx = RoutingContext::new(vec!["ep-a".into(), "ep-b".into(), "ep-z".into()]);
    assert!(!xfiles::router::filter_candidates_at(&mut circuit, &endpoints, &mut ctx, 1));
    assert_eq!(ctx.candidates, vec!["ep-b".to_string(), "ep-z".to_string()]);
    assert_eq!(ctx.rejected, vec!["ep-a".to_string()]);
    assert_eq!(ctx.explanation, vec!["circuit breaker filtered 1 endpoint(s)".to_string()]);
}

#[test]
fn quantum_stage_chooses_among_kept_candidates() {
    let mut endpoints = build_test_endpoints();
    let mut ep = endpoints.get("ep-a").unwrap();
    ep.health.status = HealthStatus::Offline;
    endpoints.insert(ep);
    let stage = CircuitAwareStage::new(CircuitBreaker::new(3, 60, 1), endpoints);
    let quantum = QuantumRoutingStage::new(Box::new(LastPick));
    let mut pipeline = default_pipeline(McpRegistry::new(), two_rule_plumber(), Some(quantum), Some(stage));
    let decision = pipeline.route(&llm_request());
    assert_eq!(decision.selected, Some("ep-b".to_string()));
    assert_eq!(
        decision.explanation,
        "plumber matched 2 rule(s); circuit breaker filtered 1 endpoint(s); quantum selected ep-b"
    );
}

#[test]
fn quantum_pick_outside_the_valid_candidates_is_not_taken() {
    let quantum = QuantumRoutingStage::new(Box::new(FixedPick("ep-z")));
    let mut pipeline = default_pipeline(McpRegistry::new(), two_rule_plumber(), Some(quantum), None);
    let decision = pipeline.route(&llm_request());
    assert_eq!(decision.selected, Some("ep-a".to_string()));
    assert_eq!(
        decision.explanation,
        "plumber matched 2 rule(s); quantum: no selection; fallback selected ep-a"
    );
}

#[test]
fn quantum_stage_passes_over_an_empty_candidate_list() {
    let mut stage = QuantumRoutingStage::new(Box::new(FixedPick("ep-a")));
    let mut ctx = RoutingContext::new(vec![]);
    assert!(!stage.apply(&llm_request(), &mut ctx));
    let d = ctx.into_decision();
    assert_eq!(d.selected, None);
    assert_eq!(d.explanation, "");
}

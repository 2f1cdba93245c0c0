use xfiles::ai::discovery::{health_candidates, infer_service, scan_url};
use xfiles::ai::docker::{ContainerInfo, DockerDiscovery};
use xfiles::ai::endpoints::ProbeOutcome;
use xfiles::ai::table::EndpointTable;
use xfiles::ai::{AiEndpoint, DiscoveryEngine, EndpointHealth, EndpointType, HealthStatus, ProbeEngine};
use xfiles::config::DiscoveryConfig;

const NOW: i64 = 1_767_225_600_000;

fn make_endpoint(id: &str, url: &str) -> AiEndpoint {
    AiEndpoint {
        id: id.into(),
        name: id.into(),
        url: url.into(),
        endpoint_type: EndpointType::Api,
        weight_bits: 1.0f64.to_bits(),
        tags: vec![],
        headers: vec![],
        health: EndpointHealth::fresh_at(NOW),
    }
}

#[test]
fn test_prune_offline_ages_out_using_offline_since() {
    let mut endpoints = EndpointTable::new();

    // Offline for 20 minutes but recently probed (last_checked = now).
    // With the old last_checked-only logic this would never be pruned.
    let mut stale = make_endpoint("stale-offline", "http://127.0.0.1:9");
    stale.health.status = HealthStatus::Offline;
    stale.health.offline_since = Some(NOW - 1200 * 1000);
    stale.health.last_checked = NOW;
    endpoints.insert(stale);

    // Recently transitioned offline: must be kept.
    let mut recent = make_endpoint("recent-offline", "http://127.0.0.1:9");
    recent.health.status = HealthStatus::Offline;
    recent.health.offline_since = Some(NOW - 60 * 1000);
    recent.health.last_checked = NOW;
    endpoints.insert(recent);

    let mut engine = ProbeEngine::new(endpoints);
    let pruned = engine.prune_offline_at(600, NOW);
    assert_eq!(pruned, 1);
    assert!(!engine.endpoints().contains("stale-offline"));
    assert!(engine.endpoints().contains("recent-offline"));
}

#[test]
fn test_probe_marks_offline_and_sets_offline_since() {
    let mut endpoints = EndpointTable::new();
    let mut ep = make_endpoint("flaky", "http://127.0.0.1:9");
    ep.health.consecutive_failures = 2;
    endpoints.insert(ep);

    let mut engine = ProbeEngine::new(endpoints);
    let outcome = ProbeOutcome::Failure("HTTP 500 Internal Server Error".to_string());
    assert!(engine.record_probe_at("flaky", outcome, 12, NOW));

    let ep = engine.endpoints().get("flaky").unwrap();
    assert_eq!(ep.health.status, HealthStatus::Offline);
    assert!(ep.health.offline_since.is_some());
    assert!(ep.health.last_error.as_ref().unwrap().contains("500"));
}

#[test]
fn test_probe_success_clears_offline_since() {
    let mut endpoints = EndpointTable::new();
    let mut ep = make_endpoint("recovered", "http://127.0.0.1:9");
    ep.health.status = HealthStatus::Offline;
    ep.health.consecutive_failures = 5;
    ep.health.offline_since = Some(NOW - 900 * 1000);
    endpoints.insert(ep);

    let mut engine = ProbeEngine::new(endpoints);
    assert!(engine.record_probe_at("recovered", ProbeOutcome::Success, 3, NOW));

    let ep = engine.endpoints().get("recovered").unwrap();
    assert_eq!(ep.health.status, HealthStatus::Healthy);
    assert_eq!(ep.health.consecutive_failures, 0);
    assert!(ep.health.offline_since.is_none());
    assert!(ep.health.last_error.is_none());
}

#[test]
fn test_discovery_prune_keeps_docker_endpoints() {
    let mut endpoints = EndpointTable::new();

    // Owned by the port scanner.
    let mut port_ep = make_endpoint("local-ai-8000", "http://127.0.0.1:8000");
    port_ep.tags = vec!["auto-discovered".into()];
    endpoints.insert(port_ep);

    // Owned by DockerDiscovery: tagged both "docker" and "auto-discovered".
    // The port scan never sees these, but they must not be pruned by it.
    let mut docker_ep = make_endpoint("docker-mysvc-deadbeefcafe", "http://127.0.0.1:49153");
    docker_ep.tags = vec!["docker".into(), "auto-discovered".into()];
    endpoints.insert(docker_ep);

    let config = DiscoveryConfig { scan_ports: vec![1], ..Default::default() };
    let mut engine = DiscoveryEngine::new(endpoints, config);
    // Nothing listens on the scanned port: the scan finds nothing.
    engine.complete_scan_at(&vec![], NOW);

    assert!(!engine.endpoints().contains("local-ai-8000"));
    assert!(engine.endpoints().contains("docker-mysvc-deadbeefcafe"));
}

#[test]
fn degraded_until_the_third_failure() {
    let mut health = EndpointHealth::fresh_at(NOW);
    health.record_probe_at(ProbeOutcome::Failure("timeout".into()), 5, NOW + 1);
    assert_eq!(health.status, HealthStatus::Degraded);
    assert_eq!(health.consecutive_failures, 1);
    assert!(health.offline_since.is_none());
    health.record_probe_at(ProbeOutcome::Failure("timeout".into()), 5, NOW + 2);
    assert_eq!(health.status, HealthStatus::Degraded);
    health.record_probe_at(ProbeOutcome::Failure("timeout".into()), 5, NOW + 3);
    assert_eq!(health.status, HealthStatus::Offline);
    assert_eq!(health.offline_since, Some(NOW + 3));
    // A fourth failure keeps the moment it went offline.
    health.record_probe_at(ProbeOutcome::Failure("timeout".into()), 7, NOW + 4);
    assert_eq!(health.offline_since, Some(NOW + 3));
    assert_eq!(health.last_checked, NOW + 4);
    assert_eq!(health.probe_latency_ms, 7);
    assert_eq!(health.last_error, Some("timeout".to_string()));
}

#[test]
fn probing_an_unknown_endpoint_records_nothing() {
    let mut engine = ProbeEngine::new(EndpointTable::new());
    assert!(!engine.record_probe_at("ghost", ProbeOutcome::Success, 1, NOW));
    assert!(engine.endpoints().is_empty());
}

#[test]
fn offline_without_offline_since_ages_by_last_check() {
    let mut endpoints = EndpointTable::new();
    let mut ep = make_endpoint("old", "http://x");
    ep.health.status = HealthStatus::Offline;
    ep.health.offline_since = None;
    ep.health.last_checked = NOW - 601 * 1000;
    endpoints.insert(ep);
    let mut healthy = make_endpoint("fine", "http://y");
    healthy.health.last_checked = NOW - 10_000 * 1000;
    endpoints.insert(healthy);
    let mut engine = ProbeEngine::new(endpoints);
    assert_eq!(engine.prune_offline_at(600, NOW), 1);
    assert!(engine.endpoints().contains("fine"));
}

#[test]
fn probe_targets_strip_trailing_slashes() {
    let mut endpoints = EndpointTable::new();
    endpoints.insert(make_endpoint("a", "http://host:1//"));
    let engine = ProbeEngine::new(endpoints);
    assert_eq!(
        engine.probe_targets(),
        vec![("a".to_string(), "http://host:1/health".to_string())]
    );
}

#[test]
fn services_are_named_by_port() {
    assert_eq!(infer_service("http://127.0.0.1:8080"), ("routage".to_string(), EndpointType::Router));
    assert_eq!(infer_service("http://127.0.0.1:7777"), ("merlin".to_string(), EndpointType::Router));
    assert_eq!(infer_service("http://127.0.0.1:8000"), ("local-ai".to_string(), EndpointType::Inference));
    assert_eq!(infer_service("http://127.0.0.1:11434"), ("ollama".to_string(), EndpointType::Inference));
    assert_eq!(infer_service("http://127.0.0.1:3000"), ("tensorzero".to_string(), EndpointType::Router));
    assert_eq!(infer_service("http://127.0.0.1:1234"), ("unknown".to_string(), EndpointType::Api));
}

#[test]
fn scan_addresses() {
    assert_eq!(scan_url(11434), "http://127.0.0.1:11434");
    assert_eq!(
        health_candidates("http://127.0.0.1:8000"),
        vec![
            "http://127.0.0.1:8000/health".to_string(),
            "http://127.0.0.1:8000/v1/health".to_string(),
            "http://127.0.0.1:8000/api/health".to_string(),
        ]
    );
}

#[test]
fn a_scan_records_new_services_once() {
    let mut engine = DiscoveryEngine::new(EndpointTable::new(), DiscoveryConfig::default());
    let found = vec![
        (8000u16, "local-ai".to_string(), EndpointType::Inference),
        (8000u16, "local-ai".to_string(), EndpointType::Router),
    ];
    engine.complete_scan_at(&found, NOW);
    let ep = engine.endpoints().get("local-ai-8000").unwrap();
    assert_eq!(ep.url, "http://127.0.0.1:8000");
    assert_eq!(ep.endpoint_type, EndpointType::Inference);
    assert_eq!(ep.tags, vec!["auto-discovered".to_string()]);
    assert_eq!(ep.weight_bits, 1.0f64.to_bits());
    assert_eq!(engine.endpoints().len(), 1);
    // A later scan that does not find it removes it.
    engine.complete_scan_at(&vec![], NOW);
    assert!(engine.endpoints().is_empty());
}

fn container(id: Option<&str>, labels: &[(&str, &str)], ports: Option<Vec<Option<u16>>>) -> ContainerInfo {
    ContainerInfo {
        id: id.map(|s| s.to_string()),
        labels: labels.iter().map(|(k, v)| (k.to_string(), v.to_string())).collect(),
        ports,
    }
}

#[test]
fn docker_labels_decide_the_endpoint() {
    let mut engine = DockerDiscovery::new(EndpointTable::new(), DiscoveryConfig::default());
    let cs = vec![
        container(
            Some("deadbeefcafe0123456789"),
            &[("ai.xfiles.service", "mysvc"), ("ai.xfiles.type", "inference"), ("ai.xfiles.port", "9001")],
            Some(vec![Some(49153)]),
        ),
        container(Some("abc"), &[("ai.xfiles.service", "other"), ("ai.xfiles.type", "bogus")], Some(vec![Some(49154)])),
        container(Some("fff"), &[("ai.xfiles.service", "plain"), ("ai.xfiles.port", "not-a-port")], None),
        container(Some("000"), &[("unrelated", "x")], None),
    ];
    engine.complete_scan_at(&cs, NOW);
    assert_eq!(engine.endpoints().len(), 3);

    let a = engine.endpoints().get("docker-mysvc-deadbeefcafe").unwrap();
    assert_eq!(a.name, "docker-mysvc");
    assert_eq!(a.url, "http://127.0.0.1:9001");
    assert_eq!(a.endpoint_type, EndpointType::Inference);
    assert_eq!(a.tags, vec!["docker".to_string(), "auto-discovered".to_string()]);

    let b = engine.endpoints().get("docker-other-abc").unwrap();
    assert_eq!(b.url, "http://127.0.0.1:49154");
    assert_eq!(b.endpoint_type, EndpointType::Api);

    let c = engine.endpoints().get("docker-plain-fff").unwrap();
    assert_eq!(c.url, "http://127.0.0.1:8080");

    // The next scan lists only the first container: the others go.
    engine.complete_scan_at(&cs[..1].to_vec(), NOW);
    assert_eq!(engine.endpoints().len(), 1);
    assert!(engine.endpoints().contains("docker-mysvc-deadbeefcafe"));
}

#[test]
fn docker_prune_spares_port_scan_endpoints() {
    let mut endpoints = EndpointTable::new();
    let mut port_ep = make_endpoint("local-ai-8000", "http://127.0.0.1:8000");
    port_ep.tags = vec!["auto-discovered".into()];
    endpoints.insert(port_ep);
    let mut engine = DockerDiscovery::new(endpoints, DiscoveryConfig::default());
    engine.complete_scan_at(&vec![], NOW);
    assert!(engine.endpoints().contains("local-ai-8000"));
}

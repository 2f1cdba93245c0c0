use xfiles::ai::endpoints::{AiEndpoint, EndpointHealth, EndpointType, HealthStatus};
use xfiles::ai::table::EndpointTable;
use xfiles::circuit::CircuitBreaker;
use xfiles::config;
use xfiles::dispatch::{delivery_target, parse_intent, plan_delivery, Delivery, Intent};
use xfiles::event::{Event, EventKind, EventSeverity};
use xfiles::fs::path::{child_name, normalize, parent_path};
use xfiles::fs::vnode::VfsError;
use xfiles::fs::VfsRegistry;
use xfiles::grpc::{GrpcCodec, GrpcResponse, GrpcStatus};
use xfiles::mcp::{tool_call_of, McpClient, McpRegistry};
use xfiles::message::{get_header, set_header, DispatchStatus, Message, MessageResponse};
use xfiles::proxy::{
    chat_completions_url, health_name, model_entries, pick_endpoint, proxy_candidates,
    proxy_candidates_at, resolve_model,
};
use xfiles::router::RoutingDecision;
use xfiles::session::{fs_read_result, fs_write_result, hello_agent_at, stamp_sender, write_status};
use xfiles::text::{decimal_text, join_text, parse_decimal, trim_text};
use xfiles::tls::TlsAppConfig;
use xfiles::agent::{Agent, AgentRegistry};
use xfiles::message::CapabilityManifest;

fn endpoint(id: &str, name: &str, status: HealthStatus) -> AiEndpoint {
    let mut health = EndpointHealth::fresh_at(0);
    health.status = status;
    AiEndpoint {
        id: id.into(),
        name: name.into(),
        url: format!("http://{}.local/", name),
        endpoint_type: EndpointType::Memory,
        weight_bits: 2.5f64.to_bits(),
        tags: vec![],
        headers: vec![],
        health,
    }
}

#[test]
fn endpoint_type_names_round_trip() {
    for t in [EndpointType::Router, EndpointType::Inference, EndpointType::Memory, EndpointType::Agent, EndpointType::Api] {
        assert_eq!(EndpointType::parse(&t.name()), Ok(t));
        assert_eq!(t.name().parse::<EndpointType>(), Ok(t));
    }
    assert_eq!(EndpointType::Inference.name(), "inference");
    assert_eq!(EndpointType::parse("Router"), Err("unknown endpoint type: Router".to_string()));
}

#[test]
fn configured_endpoint_takes_name_and_uuid() {
    let cfg = config::AiEndpoint {
        name: "local".into(),
        url: "http://127.0.0.1:8000".into(),
        endpoint_type: "inference".into(),
        weight_bits: 0.5f64.to_bits(),
        tags: vec!["gpu".into()],
        headers: vec![("x-key".into(), "v".into())],
    };
    let ep = AiEndpoint::from_config_with(&cfg, 0x0123_4567_89ab_cdef_0123_4567_89ab_cdef, 42).unwrap();
    assert_eq!(ep.id, "local-01234567-89ab-cdef-0123-456789abcdef");
    assert_eq!(ep.endpoint_type, EndpointType::Inference);
    assert_eq!(ep.tags, vec!["gpu".to_string()]);
    assert_eq!(ep.headers, vec![("x-key".to_string(), "v".to_string())]);
    assert_eq!(ep.health.last_checked, 42);
    assert_eq!(ep.health.status, HealthStatus::Healthy);

    let random = AiEndpoint::from_config(&cfg).unwrap();
    assert!(random.id.starts_with("local-"));
    assert_eq!(random.id.len(), "local-".len() + 36);

    let bad = config::AiEndpoint { endpoint_type: "gpu".into(), ..cfg };
    assert_eq!(AiEndpoint::from_config(&bad).unwrap_err(), "unknown endpoint type: gpu");
}

#[test]
fn grpc_statuses_follow_http() {
    let pairs = [
        (200, GrpcStatus::Okay),
        (400, GrpcStatus::InvalidArgument),
        (401, GrpcStatus::Unauthenticated),
        (403, GrpcStatus::PermissionDenied),
        (404, GrpcStatus::NotFound),
        (409, GrpcStatus::AlreadyExists),
        (429, GrpcStatus::ResourceExhausted),
        (499, GrpcStatus::Cancelled),
        (500, GrpcStatus::Internal),
        (501, GrpcStatus::Unimplemented),
        (503, GrpcStatus::Unavailable),
        (504, GrpcStatus::DeadlineExceeded),
        (418, GrpcStatus::Unknown),
    ];
    for (code, status) in pairs {
        assert_eq!(GrpcStatus::from_http_status(code), status);
    }
    let _codec = GrpcCodec::new();
}

#[test]
fn grpc_replies() {
    let ok = GrpcResponse::for_call("xfiles.Message/Send", None);
    assert_eq!(ok.status, GrpcStatus::Okay);
    assert_eq!(ok.body, b"ok".to_vec());
    let bad = GrpcResponse::for_call("xfiles.Message/Send", Some("eof"));
    assert_eq!(bad.status, GrpcStatus::InvalidArgument);
    assert_eq!(bad.body, b"bad message: eof".to_vec());
    let other = GrpcResponse::for_call("xfiles.Other/Call", None);
    assert_eq!(other.status, GrpcStatus::Unimplemented);
    assert_eq!(other.body, b"unimplemented".to_vec());
    let undecodable = GrpcResponse::undecodable("truncated");
    assert_eq!(undecodable.body, "decode error: truncated".as_bytes().to_vec());
    assert!(undecodable.headers.is_empty() && undecodable.trailers.is_empty());
}

#[test]
fn tls_settings_are_validated() {
    let off = TlsAppConfig::default();
    assert!(off.to_tls_config().unwrap().is_none());
    let no_cert = TlsAppConfig { enabled: true, ..TlsAppConfig::default() };
    assert_eq!(no_cert.to_tls_config().unwrap_err(), "tls.enabled=true but cert_path is missing");
    let no_key = TlsAppConfig { enabled: true, cert_path: Some("c.pem".into()), ..TlsAppConfig::default() };
    assert_eq!(no_key.to_tls_config().unwrap_err(), "tls.enabled=true but key_path is missing");
    let full = TlsAppConfig {
        enabled: true,
        cert_path: Some("c.pem".into()),
        key_path: Some("k.pem".into()),
        client_ca_path: Some("ca.pem".into()),
    };
    let c = full.to_tls_config().unwrap().unwrap();
    assert_eq!(c.cert_path, "c.pem");
    assert_eq!(c.key_path, "k.pem");
    assert_eq!(c.client_ca_path, Some("ca.pem".to_string()));
}

#[test]
fn tool_calls_are_read_from_the_payload() {
    let m = Message::new("a".into(), "/x".into(), "mcp_tool_call".into())
        .with_data("{\"tool\":\"add\",\"arguments\":{\"a\":1}}".into());
    assert_eq!(tool_call_of(&m), Some(("add".to_string(), "{\"a\":1}".to_string())));
    let bare = Message::new("a".into(), "/x".into(), "mcp_tool_call".into()).with_data("{}".into());
    assert_eq!(tool_call_of(&bare), Some(("unknown".to_string(), "null".to_string())));
    let other = Message::new("a".into(), "/x".into(), "chat".into());
    assert_eq!(tool_call_of(&other), None);
}

#[test]
fn mcp_index_is_first_wins() {
    let mut reg = McpRegistry::new();
    reg.register(endpoint("e1", "one", HealthStatus::Healthy));
    reg.register(endpoint("e2", "two", HealthStatus::Healthy));
    reg.index_tools("e1", &vec!["search".into(), "fetch".into()]);
    reg.index_tools("e2", &vec!["search".into(), "write".into()]);
    assert_eq!(reg.find_endpoint_for_tool("search"), Some(&"e1".to_string()));
    assert_eq!(reg.find_endpoint_for_tool("write"), Some(&"e2".to_string()));
    assert_eq!(reg.find_endpoint_for_tool("nope"), None);
    assert_eq!(reg.client_for_tool("fetch").unwrap().endpoint().id, "e1");
    assert!(reg.get("e3").is_none());
    reg.clear_index();
    assert_eq!(reg.find_endpoint_for_tool("search"), None);
}

#[test]
fn mcp_urls() {
    let client = McpClient::new(endpoint("e1", "one", HealthStatus::Healthy));
    assert_eq!(client.tools_url(), "http://one.local/mcp/tools");
    assert_eq!(client.call_url("add"), "http://one.local/mcp/tools/add/call");
}

#[test]
fn models_resolve_through_aliases() {
    let aliases = vec![("default".to_string(), "llama3".to_string()), ("fast".to_string(), "phi".to_string())];
    assert_eq!(resolve_model("", "llama3", &aliases), "llama3");
    assert_eq!(resolve_model("fast", "llama3", &aliases), "phi");
    assert_eq!(resolve_model("gpt-4", "llama3", &aliases), "gpt-4");
}

#[test]
fn proxy_picks_online_endpoints() {
    let mut t = EndpointTable::new();
    t.insert(endpoint("up", "alpha", HealthStatus::Healthy));
    t.insert(endpoint("down", "beta", HealthStatus::Offline));
    assert_eq!(proxy_candidates(&t), vec!["up".to_string()]);

    let mut cb = CircuitBreaker::new(1, 60, 1);
    cb.record_failure_at("up", 0);
    assert!(proxy_candidates_at(&t, &mut cb, 1).is_empty());

    let e = pick_endpoint(&t, None).unwrap_err();
    assert_eq!((e.status, e.message.as_str()), (503, "no healthy AI endpoints available"));
    let e = pick_endpoint(&t, Some("gone".into())).unwrap_err();
    assert_eq!((e.status, e.message.as_str()), (503, "selected endpoint no longer exists"));
    assert_eq!(pick_endpoint(&t, Some("up".into())).unwrap().name, "alpha");
    assert_eq!(chat_completions_url("http://h:1/"), "http://h:1/v1/chat/completions");
}

#[test]
fn model_listing_skips_offline() {
    let mut t = EndpointTable::new();
    t.insert(endpoint("up", "alpha", HealthStatus::Degraded));
    t.insert(endpoint("down", "beta", HealthStatus::Offline));
    let models = model_entries(&t);
    assert_eq!(models.len(), 1);
    assert_eq!(models[0].id, "alpha/up");
    assert_eq!(models[0].owned_by, "alpha");
    assert_eq!(models[0].kind, "memory");
    assert_eq!(models[0].health, "degraded");
    assert_eq!(health_name(HealthStatus::Healthy), "healthy");
    assert_eq!(health_name(HealthStatus::Offline), "offline");
}

fn agent(id: &str) -> Agent {
    hello_agent_at(
        id,
        CapabilityManifest { agent_id: id.into(), hostname: "box".into(), capabilities: vec![], preferred_namespace: None },
        9,
        100,
    )
}

#[test]
fn deliveries_go_to_connected_agents_or_queues() {
    assert_eq!(delivery_target("/net/bob/msg/inbox"), Some("bob".to_string()));
    assert_eq!(delivery_target("/net/bob"), Some("bob".to_string()));
    assert_eq!(delivery_target("/net/"), Some("".to_string()));
    assert_eq!(delivery_target("/ai/inference"), None);
    let mut agents = AgentRegistry::new();
    agents.register(agent("bob"));
    assert_eq!(plan_delivery(&Some("/net/bob/msg".into()), &agents), Delivery::Send("bob".into()));
    assert_eq!(plan_delivery(&Some("/net/eve".into()), &agents), Delivery::Queue("eve".into()));
    assert_eq!(plan_delivery(&Some("/ai/x".into()), &agents), Delivery::Nothing);
    assert_eq!(plan_delivery(&None, &agents), Delivery::Nothing);
}

#[test]
fn routed_response_reports_the_decision() {
    let d = RoutingDecision { selected: Some("ep".into()), candidates: vec![], explanation: "why".into() };
    let r = MessageResponse::routed(5, d);
    assert_eq!(r.message_id, 5);
    assert_eq!(r.status, DispatchStatus::Routed);
    assert_eq!(r.routed_to, vec!["ep".to_string()]);
    assert_eq!(r.explanation, Some("why".to_string()));
    assert_eq!(r.latency_ms, 0);
    let none = MessageResponse::routed(6, RoutingDecision { selected: None, candidates: vec![], explanation: String::new() });
    assert!(none.routed_to.is_empty());
}

#[test]
fn intents() {
    assert_eq!(parse_intent("send_message"), Intent::SendMessage);
    assert_eq!(parse_intent("call_tool"), Intent::CallTool);
    assert_eq!(parse_intent("complete_chat"), Intent::CompleteChat);
    assert_eq!(parse_intent("dance"), Intent::Unknown);
}

#[test]
fn sessions_stamp_and_register() {
    let a = agent("carol");
    assert_eq!(a.namespace, "/net/carol");
    assert_eq!(a.connected_at, 100);
    assert_eq!(a.last_heartbeat, 100);
    assert_eq!(a.uuid, 9);
    let m = stamp_sender(Message::new("x".into(), "/p".into(), "t".into()), "carol");
    assert_eq!(m.sender, "carol");
    assert_eq!(m.sender_ns, "/net/carol");
    assert_eq!(m.path, "/p");
}

#[test]
fn filesystem_requests_are_answered() {
    let mut vfs = VfsRegistry::new();
    let r = fs_read_result(&vfs, "/ctl/status".into());
    assert_eq!(r.data, Some(b"ok".to_vec()));
    assert_eq!(r.error, None);
    let r = fs_read_result(&vfs, "/nope".into());
    assert_eq!((r.data, r.error), (None, Some("not found".to_string())));
    let w = fs_write_result(&mut vfs, "/net".into(), b"x".to_vec());
    assert_eq!(w.error, Some("cannot write to directory".to_string()));
    let w = fs_write_result(&mut vfs, "/plumber/rules".into(), b"[1]".to_vec());
    assert_eq!(w.error, None);
    assert_eq!(vfs.read("/plumber/rules").unwrap(), b"[1]".to_vec());
    assert_eq!(write_status(&Ok(())), 200);
    assert_eq!(write_status(&Err(VfsError::NotFound)), 404);
    assert_eq!(write_status(&Err(VfsError::IsDirectory)), 400);
}

#[test]
fn events_are_built_fluently() {
    let e = Event::new_at(EventKind::SystemStartup, "test".into(), "system started".into(), 1, 2)
        .with_severity(EventSeverity::Warn)
        .with_conversation(3)
        .with_endpoint("ep".into())
        .with_agent("ag".into())
        .with_metadata("k".into(), "1".into())
        .with_metadata("k".into(), "2".into())
        .with_metadata("j".into(), "\"x\"".into());
    assert_eq!(e.severity, EventSeverity::Warn);
    assert_eq!(e.conversation_id, Some(3));
    assert_eq!(e.endpoint_id, Some("ep".to_string()));
    assert_eq!(e.agent_id, Some("ag".to_string()));
    assert_eq!(e.metadata, vec![("k".to_string(), "2".to_string()), ("j".to_string(), "\"x\"".to_string())]);
    let fresh = Event::new(EventKind::RateLimitHit, "s".into(), "m".into());
    assert_eq!(fresh.severity, EventSeverity::Info);
    assert!(fresh.metadata.is_empty());
}

#[test]
fn headers_set_in_place_or_append() {
    let mut h = vec![("a".to_string(), "1".to_string())];
    set_header(&mut h, "b".into(), "2".into());
    set_header(&mut h, "a".into(), "3".into());
    assert_eq!(h, vec![("a".to_string(), "3".to_string()), ("b".to_string(), "2".to_string())]);
    assert_eq!(get_header(&h, "a"), Some("3".to_string()));
    assert_eq!(get_header(&h, "c"), None);
}

#[test]
fn text_helpers() {
    assert_eq!(trim_text("  hi there \n"), "hi there");
    assert_eq!(join_text(&vec!["a".into(), "b".into()], ", "), "a, b");
    assert_eq!(decimal_text(0), "0");
    assert_eq!(decimal_text(1234567), "1234567");
    assert_eq!(parse_decimal("+42", 100), Some(42));
    assert_eq!(parse_decimal("101", 100), None);
    assert_eq!(parse_decimal("", 100), None);
    assert_eq!(parse_decimal("4x", 100), None);
}

#[test]
fn path_helpers() {
    assert_eq!(normalize("/a/./b/../c/"), "/a/c");
    assert_eq!(normalize(""), "/");
    assert_eq!(parent_path("/a/b"), Some("/a".to_string()));
    assert_eq!(parent_path("/a"), Some("/".to_string()));
    assert_eq!(parent_path("/"), None);
    assert_eq!(child_name("/net", "/net/agent-1"), Some("agent-1".to_string()));
    assert_eq!(child_name("/net", "/net/agent-1/x"), None);
    assert_eq!(child_name("/net/agent-1", "/net/agent-10"), None);
}

#[test]
fn configuration_defaults_and_overrides() {
    assert_eq!(config::default_max_agents(), 100);
    assert_eq!(config::default_ports(), vec![3000, 8080, 7777, 8000, 11434, 9000]);
    assert!(config::parse_quantum_enabled("true"));
    assert!(config::parse_quantum_enabled("yes"));
    assert!(!config::parse_quantum_enabled("false"));
    assert_eq!(config::parse_max_agents("7"), Some(7));
    assert_eq!(config::parse_max_agents("-1"), None);
    assert_eq!(config::apply_overrides(7, true, Some("99"), Some("false")), Some((99, false)));
    assert_eq!(config::apply_overrides(7, true, None, None), Some((7, true)));
    assert_eq!(config::apply_overrides(7, false, None, Some("maybe")), Some((7, true)));
    assert_eq!(config::apply_overrides(7, true, Some("lots"), Some("false")), None);
}

use xfiles::agent::{Agent, AgentRegistry};
use xfiles::fs::VfsRegistry;
use xfiles::message::{Capability, CapabilityManifest};
use xfiles::namespace::NamespaceManager;

fn agent(id: &str, host: &str, now: i64) -> Agent {
    Agent {
        id: id.into(),
        uuid: 7,
        hostname: host.into(),
        namespace: format!("/net/{}", id),
        manifest: CapabilityManifest {
            agent_id: id.into(),
            hostname: host.into(),
            capabilities: vec![],
            preferred_namespace: None,
        },
        connected_at: now,
        last_heartbeat: now,
    }
}

#[test]
fn test_agent_registry_lifecycle() {
    let mut registry = AgentRegistry::new();
    registry.register(agent("test-agent", "testbox", 0));
    assert_eq!(registry.len(), 1);

    let fetched = registry.get("test-agent").unwrap();
    assert_eq!(fetched.hostname, "testbox");

    registry.unregister("test-agent");
    assert!(registry.is_empty());
}

#[test]
fn test_agent_heartbeat_and_stale_pruning() {
    let mut registry = AgentRegistry::new();
    let start: i64 = 1_700_000_000_000;
    registry.register(agent("stale-agent", "oldbox", start));
    assert_eq!(registry.len(), 1);

    // Agent should not be stale immediately
    let stale = registry.stale_agents_at(1, start);
    assert!(stale.is_empty());

    // Two seconds later it is.
    let stale = registry.stale_agents_at(1, start + 2_000);
    assert_eq!(stale, vec!["stale-agent"]);

    // A heartbeat makes it fresh again.
    registry.heartbeat_at("stale-agent", start + 2_000);
    assert!(registry.stale_agents_at(1, start + 2_000).is_empty());
}

#[test]
fn test_namespace_mount_unmount() {
    let vfs = VfsRegistry::new();
    let agents = AgentRegistry::new();
    let mut ns = NamespaceManager::new(vfs, agents);

    let manifest = CapabilityManifest {
        agent_id: "ns-test".into(),
        hostname: "ns-host".into(),
        capabilities: vec![Capability {
            name: "chat".into(),
            version: "1.0".into(),
            paths: vec!["/send".into(), "/recv".into()],
            metadata: Default::default(),
        }],
        preferred_namespace: None,
    };

    let path = ns.create_namespace(&manifest, b"[]".to_vec());
    assert!(ns.vfs().exists_path(&path));
    assert!(ns.vfs().exists_path("/net/ns-test/cap/chat/version"));

    ns.remove_namespace("ns-test");
    assert!(!ns.vfs().exists_path("/net/ns-test"));
}

#[test]
fn namespace_binding_resolves_and_lists() {
    let mut ns = NamespaceManager::new(VfsRegistry::new(), AgentRegistry::new());
    let manifest = CapabilityManifest {
        agent_id: "a1".into(),
        hostname: "h1".into(),
        capabilities: vec![Capability {
            name: "files".into(),
            version: "2".into(),
            paths: vec!["//deep/read".into()],
            metadata: vec![],
        }],
        preferred_namespace: None,
    };
    let path = ns.create_namespace(&manifest, b"[1]".to_vec());
    assert_eq!(path, "/net/a1");
    assert_eq!(ns.resolve("a1"), Some("/net/a1".to_string()));
    assert_eq!(ns.list_namespaces(), vec![("a1".to_string(), "/net/a1".to_string())]);
    assert!(ns.vfs().exists_path("/net/a1/cap/files/deep/read"));
    assert_eq!(ns.vfs().read("/net/a1/hostname").unwrap(), b"h1".to_vec());
    assert_eq!(ns.vfs().read("/net/a1/ctl/capabilities").unwrap(), b"[1]".to_vec());
    assert_eq!(ns.vfs().read("/net/a1/cap/files/version").unwrap(), b"2".to_vec());
    ns.remove_namespace("a1");
    assert_eq!(ns.resolve("a1"), None);
    assert!(!ns.vfs().exists_path("/net/a1/hostname"));
}

#[test]
fn stale_agents_use_whole_seconds() {
    let mut registry = AgentRegistry::new();
    registry.register(agent("a", "h", 0));
    // 1.999 s is one whole second: not more than a one-second threshold.
    assert!(registry.stale_agents_at(1, 1_999).is_empty());
    assert_eq!(registry.stale_agents_at(1, 2_000), vec!["a"]);
    assert!(registry.stale_agents_at(2, 2_999).is_empty());
}

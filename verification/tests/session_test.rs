use xfiles::agent::AgentRegistry;
use xfiles::fs::path::normalize;
use xfiles::plumber::Plumber;
use xfiles::fs::{VfsRegistry, Vnode};
use xfiles::mcp::call_succeeded;
use xfiles::message::{CapabilityManifest, Message};
use xfiles::queue::MessageQueue;
use xfiles::session::welcome;

fn manifest(host: &str) -> CapabilityManifest {
    CapabilityManifest {
        agent_id: "a1".to_string(),
        hostname: host.to_string(),
        capabilities: Vec::new(),
        preferred_namespace: None,
    }
}

fn msg(kind: &str) -> Message {
    Message::new("test".to_string(), "/net/a1".to_string(), kind.to_string())
}

#[test]
fn welcome_registers_mounts_and_hands_over_queue_in_order() {
    let mut agents = AgentRegistry::new();
    let mut vfs = VfsRegistry::new();
    let mut queue = MessageQueue::new();
    let first = msg("first");
    let second = msg("second");
    queue.enqueue_at("a1", first.clone(), 0);
    queue.enqueue_at("a1", second.clone(), 1);
    queue.enqueue_at("other", msg("x"), 2);

    let waiting = welcome(&mut agents, &mut vfs, &mut queue, "a1", manifest("host-1"));

    assert_eq!(waiting.len(), 2);
    assert_eq!(waiting[0].id, first.id);
    assert_eq!(waiting[1].id, second.id);
    let agent = agents.get("a1").unwrap();
    assert_eq!(agent.hostname, "host-1");
    assert_eq!(agent.namespace, "/net/a1");
    assert!(vfs.exists_path("/net/a1/ctl/status"));
    assert!(vfs.exists_path("/net/a1/msg/inbox"));
    assert_eq!(vfs.read("/net/a1/hostname").unwrap(), b"host-1".to_vec());
    assert_eq!(queue.stats(), vec![("other".to_string(), 1)]);
}

#[test]
fn welcome_with_nothing_queued_hands_over_nothing() {
    let mut agents = AgentRegistry::new();
    let mut vfs = VfsRegistry::new();
    let mut queue = MessageQueue::new();
    let waiting = welcome(&mut agents, &mut vfs, &mut queue, "a1", manifest("h"));
    assert!(waiting.is_empty());
    assert_eq!(agents.len(), 1);
}

#[test]
fn draining_into_a_list_takes_every_message() {
    let mut queue = MessageQueue::new();
    let a = msg("a");
    let b = msg("b");
    queue.enqueue_at("agent", a.clone(), 0);
    queue.enqueue_at("agent", b.clone(), 1);
    let mut sink: Vec<Message> = Vec::new();
    assert_eq!(queue.drain_to("agent", &mut sink), 2);
    assert_eq!(sink[0].id, a.id);
    assert_eq!(sink[1].id, b.id);
    assert!(queue.stats().is_empty());
}

#[test]
fn handles_on_a_node_share_its_content() {
    let mut vfs = VfsRegistry::new();
    vfs.add_node("/test/file", Vnode::new_file("file".to_string(), b"hello".to_vec()));
    let first = vfs.get("/test/file").unwrap();
    let second = vfs.get("test//file").unwrap();
    first.write(&mut vfs, b"world".to_vec()).unwrap();
    assert_eq!(second.read(&vfs), b"world".to_vec());
    assert_eq!(vfs.read("/test/file").unwrap(), b"world".to_vec());
    assert!(vfs.get("/net").unwrap().is_dir(&vfs));
    vfs.remove("/test/file");
    assert!(second.read(&vfs).is_empty());
    assert!(first.write(&mut vfs, b"again".to_vec()).is_err());
}

#[test]
fn mcp_calls_succeed_only_on_2xx() {
    assert!(call_succeeded(200));
    assert!(call_succeeded(299));
    assert!(!call_succeeded(500));
    assert!(!call_succeeded(404));
    assert!(!call_succeeded(199));
}

#[test]
fn normalising_twice_changes_nothing() {
    for p in ["", "/", "a/b", "//a//./b/../c/", "  /x/y  ", "/a/../..", "/net/agent/ctl/status"] {
        let once = normalize(p);
        assert_eq!(normalize(&once), once);
        assert!(once.starts_with('/'));
        assert!(once == "/" || !once.ends_with('/'));
        assert!(once[1..].split('/').all(|s| once == "/" || (!s.is_empty() && s != "." && s != "..")));
    }
}

#[test]
fn plumber_routes_higher_priority_rules_first() {
    let mut p = Plumber::new();
    p.add_rule("low", "llm", "/low", 1, None).unwrap();
    p.add_rule("high", "llm", "/high", 10, None).unwrap();
    p.add_rule("mid", "llm", "/mid", 5, None).unwrap();
    p.add_rule("mid2", "llm", "/mid2", 5, None).unwrap();
    let msg = Message::new("s".to_string(), "/ai".to_string(), "llm_request".to_string());
    assert_eq!(p.route(&msg), vec!["/high".to_string(), "/mid".to_string(), "/mid2".to_string(), "/low".to_string()]);
}

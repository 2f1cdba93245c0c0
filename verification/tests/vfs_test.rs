use xfiles::fs::{VfsRegistry, Vnode};

#[test]
fn test_vfs_seed_core() {
    let vfs = VfsRegistry::new();

    assert!(vfs.exists_path("/net"));
    assert!(vfs.exists_path("/ai"));
    assert!(vfs.exists_path("/proc"));
    assert!(vfs.exists_path("/msg"));
    assert!(vfs.exists_path("/plumber"));
    assert!(vfs.exists_path("/ctl"));
}

#[test]
fn test_vfs_mount_agent() {
    let mut vfs = VfsRegistry::new();
    vfs.mount_agent_ns("agent-01", "laptop01");

    assert!(vfs.exists_path("/net/agent-01"));
    assert!(vfs.exists_path("/net/agent-01/hostname"));
    assert!(vfs.exists_path("/net/agent-01/ctl"));
    assert!(vfs.exists_path("/net/agent-01/ctl/status"));
    assert!(vfs.exists_path("/net/agent-01/msg"));
    assert!(vfs.exists_path("/net/agent-01/msg/inbox"));
    assert!(vfs.exists_path("/net/agent-01/msg/outbox"));
}

#[test]
fn test_unmount_agent_ns_prefix_boundary() {
    let mut vfs = VfsRegistry::new();
    vfs.mount_agent_ns("agent-1", "host1");
    vfs.mount_agent_ns("agent-10", "host10");

    vfs.unmount_agent_ns("agent-1");

    assert!(!vfs.exists_path("/net/agent-1"));
    assert!(!vfs.exists_path("/net/agent-1/hostname"));
    assert!(vfs.exists_path("/net/agent-10"));
    assert!(vfs.exists_path("/net/agent-10/hostname"));
    assert!(vfs.exists_path("/net/agent-10/ctl/status"));

    let children = vfs.list("/net");
    assert!(children.contains(&"agent-10".to_string()));
    assert!(!children.contains(&"agent-1".to_string()));
}

#[test]
fn test_vfs_listing_prefix_boundary() {
    let mut vfs = VfsRegistry::new();
    vfs.mount_agent_ns("agent-1", "host1");
    vfs.mount_agent_ns("agent-10", "host10");

    let children = vfs.list("/net/agent-1");
    assert!(children.contains(&"hostname".to_string()));
    assert!(children.contains(&"ctl".to_string()));
    assert!(children.contains(&"msg".to_string()));
    assert!(!children.contains(&"0".to_string()));

    let net_children = vfs.list("/net");
    assert_eq!(net_children.len(), 2);
}

#[test]
fn test_remove_unlinks_child_from_parent() {
    let mut vfs = VfsRegistry::new();
    vfs.mount_agent_ns("agent-1", "host1");

    vfs.remove("/net/agent-1/hostname");

    let children = vfs.list("/net/agent-1");
    assert!(!children.contains(&"hostname".to_string()));

    // Full unmount must not leave phantom entries in the parent's listing
    vfs.unmount_agent_ns("agent-1");
    assert!(!vfs.list("/net").contains(&"agent-1".to_string()));
}

#[test]
fn test_dir_read_reflects_unmount() {
    let mut vfs = VfsRegistry::new();
    vfs.mount_agent_ns("agent-1", "host1");
    vfs.mount_agent_ns("agent-10", "host10");

    vfs.unmount_agent_ns("agent-1");

    let net = vfs.get("/net").unwrap();
    let data = net.read(&vfs);
    let listing = String::from_utf8_lossy(&data);
    let entries: Vec<&str> = listing.lines().collect();
    assert!(!entries.contains(&"agent-1"));
    assert!(entries.contains(&"agent-10"));
}

#[test]
fn test_vfs_read_write_file() {
    let mut vfs = VfsRegistry::new();
    vfs.add_node("/test/file", Vnode::new_file("file".to_string(), b"hello".to_vec()));

    let node = vfs.get("/test/file").unwrap();
    let data = node.read(&vfs);
    assert_eq!(data, b"hello");

    node.write(&mut vfs, b"world".to_vec()).unwrap();
    let data = node.read(&vfs);
    assert_eq!(data, b"world");
    // Every handle on the node sees the write.
    assert_eq!(vfs.get("/test/file").unwrap().read(&vfs), b"world");
}

#[test]
fn test_vfs_directory_listing() {
    let mut vfs = VfsRegistry::new();
    vfs.mkdir("/test/dir");
    vfs.add_node("/test/dir/a", Vnode::new_file("a".to_string(), b"".to_vec()));
    vfs.add_node("/test/dir/b", Vnode::new_file("b".to_string(), b"".to_vec()));

    let children = vfs.list("/test/dir");
    assert!(children.contains(&"a".to_string()));
    assert!(children.contains(&"b".to_string()));
}

//! Per-agent namespaces in the virtual filesystem.
use vstd::prelude::*;
use vstd::string::*;
use dashmap::DashMap;
use crate::agent::AgentRegistry;
use crate::fs::registry::{
    agent_base, utf8_of, with_dir, with_node, without_namespace, VfsRegistry,
};
use crate::fs::vnode::{Vnode, VnodeView};
use crate::message::{Capability, CapabilityManifest};
use crate::text::{concat2, concat3, owned};

verus! {

/// What the binding table holds: agent id to namespace path.
pub uninterp spec fn binding_table(m: DashMap<String, String>) -> Map<Seq<char>, String>;

/// `DashMap::new`: an empty table.
#[verifier::external_body]
fn bindings_new() -> (r: DashMap<String, String>)
    ensures
        (binding_table(r) == Map::<Seq<char>, String>::empty()),
{
    DashMap::new()
}

/// `DashMap::get`, cloning the path out: the entry for `key`, if any.
#[verifier::external_body]
fn bindings_get(m: &DashMap<String, String>, key: &str) -> (r: Option<String>)
    ensures
        r == (if binding_table(*m).contains_key(key@) { Some(binding_table(*m)[key@]) } else { None }),
{
    m.get(key).map(|e| e.clone())
}

/// `DashMap::insert`: the entry for `key` becomes `v`, the others stay.
#[verifier::external_body]
fn bindings_insert(m: &mut DashMap<String, String>, key: String, v: String)
    ensures
        binding_table(*final(m)) == binding_table(*old(m)).insert(key@, v),
{
    m.insert(key, v);
}

/// `DashMap::remove`: the entry for `key` leaves and is handed back.
#[verifier::external_body]
fn bindings_remove(m: &mut DashMap<String, String>, key: &str) -> (r: Option<String>)
    ensures
        binding_table(*final(m)) == binding_table(*old(m)).remove(key@),
        r == (if binding_table(*old(m)).contains_key(key@) { Some(binding_table(*old(m))[key@]) } else { None }),
{
    m.remove(key).map(|(_, v)| v)
}

/// `DashMap::iter`, cloning each entry out: every entry once, in the
/// table's own order.
#[verifier::external_body]
fn bindings_entries(m: &DashMap<String, String>) -> (r: Vec<(String, String)>)
    ensures
        r@.len() == binding_table(*m).dom().len(),
        (forall|i: int| 0 <= i < r@.len() ==> #[trigger] binding_table(*m).contains_key(r@[i].0@)
            && binding_table(*m)[r@[i].0@] == r@[i].1),
        (forall|i: int, j: int| 0 <= i < j < r@.len() ==> r@[i].0@ != r@[j].0@),
        (forall|k: Seq<char>| #[trigger] binding_table(*m).contains_key(k) ==> exists|i: int| 0 <= i < r@.len() && r@[i].0@ == k),
{
    m.iter().map(|e| (e.key().clone(), e.value().clone())).collect()
}

/// `s` without the `/` characters at its start.
pub open spec fn without_leading_slashes(s: Seq<char>) -> Seq<char>
    decreases s.len(),
{
    if s.len() > 0 && s[0] == '/' { without_leading_slashes(s.drop_first()) } else { s }
}

/// `s` without the `/` characters at its start.
pub fn trim_leading_slashes(s: &str) -> (r: String)
    ensures
        r@ == without_leading_slashes(s@),
{
    let cs = crate::text::chars_of(s);
    let mut start: usize = 0;
    proof {
        assert(s@.subrange(0, s@.len() as int) =~= s@);
    }
    while start < cs.len() && cs[start] == '/'
        invariant
            start <= cs@.len(),
            cs@ == s@,
            without_leading_slashes(s@) == without_leading_slashes(s@.subrange(start as int, s@.len() as int)),
        decreases cs@.len() - start,
    {
        proof {
            assert(s@.subrange(start as int, s@.len() as int).drop_first() =~= s@.subrange(start + 1, s@.len() as int));
        }
        start = start + 1;
    }
    let n = cs.len();
    String::from_str(s.substring_char(start, n))
}

/// The nodes after the files for `paths` are placed in the capability
/// directory `dir`, in order.
pub open spec fn with_cap_paths(m: Map<Seq<char>, VnodeView>, dir: Seq<char>, paths: Seq<String>) -> Map<Seq<char>, VnodeView>
    decreases paths.len(),
{
    if paths.len() == 0 {
        m
    } else {
        let p = paths.last();
        with_node(
            with_cap_paths(m, dir, paths.drop_last()),
            dir + "/"@ + without_leading_slashes(p@),
            VnodeView::File { name: p@, content: Seq::empty() },
        )
    }
}

/// The directory of capability `name` in the namespace `ns`.
pub open spec fn cap_dir(ns: Seq<char>, name: Seq<char>) -> Seq<char> {
    ns + "/cap/"@ + name
}

/// The nodes after capability `cap` is bound in the namespace `ns`: its
/// directory, its version file and a file for each of its paths.
pub open spec fn with_capability(m: Map<Seq<char>, VnodeView>, ns: Seq<char>, cap: Capability) -> Map<Seq<char>, VnodeView> {
    let d = cap_dir(ns, cap.name@);
    let m1 = with_dir(m, d);
    let m2 = with_node(m1, d + "/version"@, VnodeView::File { name: "version"@, content: utf8_of(cap.version@) });
    with_cap_paths(m2, d, cap.paths@)
}

/// The nodes after the capabilities `caps` are bound in the namespace `ns`,
/// in order.
pub open spec fn with_capabilities(m: Map<Seq<char>, VnodeView>, ns: Seq<char>, caps: Seq<Capability>) -> Map<Seq<char>, VnodeView>
    decreases caps.len(),
{
    if caps.len() == 0 {
        m
    } else {
        with_capability(with_capabilities(m, ns, caps.drop_last()), ns, caps.last())
    }
}

/// The nodes after the namespace of the agent that `manifest` describes is
/// created, with `capabilities_json` as the content of its capabilities
/// file.
pub open spec fn with_agent_namespace(m: Map<Seq<char>, VnodeView>, manifest: CapabilityManifest, capabilities_json: Seq<u8>) -> Map<Seq<char>, VnodeView> {
    let ns = agent_base(manifest.agent_id@);
    let m1 = with_dir(m, ns);
    let m2 = with_node(m1, ns + "/hostname"@, VnodeView::File { name: "hostname"@, content: utf8_of(manifest.hostname@) });
    let m3 = with_node(m2, ns + "/ctl/status"@, VnodeView::Ctl { name: "status"@, status: "connected"@ });
    let m4 = with_node(m3, ns + "/ctl/capabilities"@, VnodeView::File { name: "capabilities"@, content: capabilities_json });
    let m5 = with_dir(m4, ns + "/msg"@);
    let m6 = with_node(m5, ns + "/msg/inbox"@, VnodeView::File { name: "inbox"@, content: Seq::empty() });
    let m7 = with_node(m6, ns + "/msg/outbox"@, VnodeView::File { name: "outbox"@, content: Seq::empty() });
    with_capabilities(m7, ns, manifest.capabilities@)
}

/// Placing a node keeps every existing path and adds its own.
proof fn with_node_grows(m: Map<Seq<char>, VnodeView>, path: Seq<char>, node: VnodeView)
    ensures
        with_node(m, path, node).contains_key(crate::fs::path::normalized(path)),
        forall|k: Seq<char>| m.contains_key(k) ==> #[trigger] with_node(m, path, node).contains_key(k),
{
}

proof fn with_cap_paths_grows(m: Map<Seq<char>, VnodeView>, dir: Seq<char>, paths: Seq<String>)
    ensures
        forall|k: Seq<char>| m.contains_key(k) ==> #[trigger] with_cap_paths(m, dir, paths).contains_key(k),
        forall|j: int| 0 <= j < paths.len() ==> with_cap_paths(m, dir, paths).contains_key(
            crate::fs::path::normalized(dir + "/"@ + without_leading_slashes((#[trigger] paths[j])@))),
    decreases paths.len(),
{
    if paths.len() > 0 {
        let rest = paths.drop_last();
        with_cap_paths_grows(m, dir, rest);
        let p = paths.last();
        with_node_grows(with_cap_paths(m, dir, rest), dir + "/"@ + without_leading_slashes(p@), VnodeView::File { name: p@, content: Seq::empty() });
        assert forall|j: int| 0 <= j < paths.len() implies with_cap_paths(m, dir, paths).contains_key(
            crate::fs::path::normalized(dir + "/"@ + without_leading_slashes((#[trigger] paths[j])@))) by {
            if j < paths.len() - 1 {
                assert(rest[j] == paths[j]);
            } else {
                assert(paths[j] == p);
            }
        }
    }
}

proof fn with_capability_grows(m: Map<Seq<char>, VnodeView>, ns: Seq<char>, cap: Capability)
    ensures
        forall|k: Seq<char>| m.contains_key(k) ==> #[trigger] with_capability(m, ns, cap).contains_key(k),
        with_capability(m, ns, cap).contains_key(crate::fs::path::normalized(cap_dir(ns, cap.name@) + "/version"@)),
        forall|j: int| 0 <= j < cap.paths@.len() ==> with_capability(m, ns, cap).contains_key(
            crate::fs::path::normalized(cap_dir(ns, cap.name@) + "/"@ + without_leading_slashes((#[trigger] cap.paths@[j])@))),
{
    let d = cap_dir(ns, cap.name@);
    with_node_grows(m, d, VnodeView::Dir { name: crate::fs::path::normalized(d), children: Seq::empty() });
    let m1 = with_dir(m, d);
    with_node_grows(m1, d + "/version"@, VnodeView::File { name: "version"@, content: utf8_of(cap.version@) });
    let m2 = with_node(m1, d + "/version"@, VnodeView::File { name: "version"@, content: utf8_of(cap.version@) });
    with_cap_paths_grows(m2, d, cap.paths@);
}

proof fn with_capabilities_grows(m: Map<Seq<char>, VnodeView>, ns: Seq<char>, caps: Seq<Capability>)
    ensures
        forall|k: Seq<char>| m.contains_key(k) ==> #[trigger] with_capabilities(m, ns, caps).contains_key(k),
        forall|i: int| 0 <= i < caps.len() ==> #[trigger] with_capabilities(m, ns, caps).contains_key(
            crate::fs::path::normalized(cap_dir(ns, caps[i].name@) + "/version"@)),
        forall|i: int, j: int| 0 <= i < caps.len() && 0 <= j < caps[i].paths@.len() ==> with_capabilities(m, ns, caps).contains_key(
            crate::fs::path::normalized(cap_dir(ns, caps[i].name@) + "/"@ + without_leading_slashes((#[trigger] caps[i].paths@[j])@))),
    decreases caps.len(),
{
    if caps.len() > 0 {
        with_capabilities_grows(m, ns, caps.drop_last());
        with_capability_grows(with_capabilities(m, ns, caps.drop_last()), ns, caps.last());
        assert forall|i: int, j: int| 0 <= i < caps.len() && 0 <= j < caps[i].paths@.len() implies with_capabilities(m, ns, caps).contains_key(
            crate::fs::path::normalized(cap_dir(ns, caps[i].name@) + "/"@ + without_leading_slashes((#[trigger] caps[i].paths@[j])@))) by {
            if i < caps.len() - 1 {
                assert(caps.drop_last()[i] == caps[i]);
            } else {
                assert(caps.last() == caps[i]);
            }
        }
        assert forall|i: int| 0 <= i < caps.len() implies #[trigger] with_capabilities(m, ns, caps).contains_key(
            crate::fs::path::normalized(cap_dir(ns, caps[i].name@) + "/version"@)) by {
            if i < caps.len() - 1 {
                assert(caps.drop_last()[i] == caps[i]);
            }
        }
    }
}

/// A created namespace is there afterwards: its root, hostname, control
/// files and message boxes, and the version file of each of its
/// capabilities and a file for every path of each, at their canonical
/// paths; and every node that was there before stays.
pub proof fn created_namespace_exists(m: Map<Seq<char>, VnodeView>, manifest: CapabilityManifest, capabilities_json: Seq<u8>)
    ensures
        ({
            let n = with_agent_namespace(m, manifest, capabilities_json);
            let ns = agent_base(manifest.agent_id@);
            &&& n.contains_key(crate::fs::path::normalized(ns + "/hostname"@))
            &&& n.contains_key(crate::fs::path::normalized(ns + "/ctl/status"@))
            &&& n.contains_key(crate::fs::path::normalized(ns + "/ctl/capabilities"@))
            &&& n.contains_key(crate::fs::path::normalized(ns + "/msg"@))
            &&& n.contains_key(crate::fs::path::normalized(ns + "/msg/inbox"@))
            &&& n.contains_key(crate::fs::path::normalized(ns + "/msg/outbox"@))
        }),
        forall|i: int, j: int| 0 <= i < manifest.capabilities@.len() && 0 <= j < manifest.capabilities@[i].paths@.len() ==>
            with_agent_namespace(m, manifest, capabilities_json).contains_key(crate::fs::path::normalized(
                cap_dir(agent_base(manifest.agent_id@), manifest.capabilities@[i].name@) + "/"@
                + without_leading_slashes((#[trigger] manifest.capabilities@[i].paths@[j])@))),
        with_agent_namespace(m, manifest, capabilities_json).contains_key(crate::fs::path::normalized(agent_base(manifest.agent_id@))),
        forall|i: int| 0 <= i < manifest.capabilities@.len() ==> #[trigger] with_agent_namespace(m, manifest, capabilities_json).contains_key(
            crate::fs::path::normalized(cap_dir(agent_base(manifest.agent_id@), manifest.capabilities@[i].name@) + "/version"@)),
        forall|k: Seq<char>| m.contains_key(k) ==> #[trigger] with_agent_namespace(m, manifest, capabilities_json).contains_key(k),
{
    let ns = agent_base(manifest.agent_id@);
    let n_dir = VnodeView::Dir { name: crate::fs::path::normalized(ns), children: Seq::empty() };
    with_node_grows(m, ns, n_dir);
    let m1 = with_dir(m, ns);
    let f2 = VnodeView::File { name: "hostname"@, content: utf8_of(manifest.hostname@) };
    with_node_grows(m1, ns + "/hostname"@, f2);
    let m2 = with_node(m1, ns + "/hostname"@, f2);
    let f3 = VnodeView::Ctl { name: "status"@, status: "connected"@ };
    with_node_grows(m2, ns + "/ctl/status"@, f3);
    let m3 = with_node(m2, ns + "/ctl/status"@, f3);
    let f4 = VnodeView::File { name: "capabilities"@, content: capabilities_json };
    with_node_grows(m3, ns + "/ctl/capabilities"@, f4);
    let m4 = with_node(m3, ns + "/ctl/capabilities"@, f4);
    let f5 = VnodeView::Dir { name: crate::fs::path::normalized(ns + "/msg"@), children: Seq::empty() };
    with_node_grows(m4, ns + "/msg"@, f5);
    let m5 = with_dir(m4, ns + "/msg"@);
    let f6 = VnodeView::File { name: "inbox"@, content: Seq::empty() };
    with_node_grows(m5, ns + "/msg/inbox"@, f6);
    let m6 = with_node(m5, ns + "/msg/inbox"@, f6);
    let f7 = VnodeView::File { name: "outbox"@, content: Seq::empty() };
    with_node_grows(m6, ns + "/msg/outbox"@, f7);
    let m7 = with_node(m6, ns + "/msg/outbox"@, f7);
    with_capabilities_grows(m7, ns, manifest.capabilities@);
}

/// After a namespace is removed, no node remains at or below its root,
/// whether or not the agent was bound to it.
pub proof fn removed_namespace_is_gone(m: Map<Seq<char>, VnodeView>, agent_id: Seq<char>, k: Seq<char>)
    requires
        crate::fs::registry::under(k, agent_base(agent_id)),
    ensures
        !without_namespace(without_namespace(m, agent_id), agent_id).contains_key(k),
        !without_namespace(m, agent_id).contains_key(k),
{
    crate::fs::registry::unmount_removes_namespace(m, agent_id, k);
    crate::fs::registry::unmount_removes_namespace(without_namespace(m, agent_id), agent_id, k);
}

/// Manages per-agent namespaces in the virtual filesystem.
#[derive(Debug)]
pub struct NamespaceManager {
    vfs: VfsRegistry,
    agents: AgentRegistry,
    /// agent id to namespace path.
    bindings: DashMap<String, String>,
}

impl NamespaceManager {
    /// The filesystem's nodes.
    pub closed spec fn nodes(&self) -> Map<Seq<char>, VnodeView> {
        self.vfs.nodes()
    }

    /// Which agent is bound to which namespace path.
    pub closed spec fn bindings(&self) -> Map<Seq<char>, Seq<char>> {
        binding_table(self.bindings).map_values(|p: String| p@)
    }

    /// A manager over `vfs`, which it owns from now on: the namespaces it
    /// creates are seen through `vfs()` and `into_vfs()`.
    pub fn new(vfs: VfsRegistry, agents: AgentRegistry) -> (r: Self)
        ensures
            r.nodes() == vfs.nodes(),
            r.bindings() == Map::<Seq<char>, Seq<char>>::empty(),
    {
        let r = NamespaceManager { vfs, agents, bindings: bindings_new() };
        proof {
            assert(r.bindings() =~= Map::<Seq<char>, Seq<char>>::empty());
        }
        r
    }

    /// The filesystem the namespaces live in.
    pub fn vfs(&self) -> (r: &VfsRegistry)
        ensures
            r.nodes() == self.nodes(),
    {
        &self.vfs
    }

    /// Hands back the filesystem, with every namespace created in it. The
    /// manager owns the one registry it was given (a registry is not
    /// copied), so this is where the namespaces are seen.
    pub fn into_vfs(self) -> (r: VfsRegistry)
        ensures
            r.nodes() == self.nodes(),
    {
        self.vfs
    }

    /// Places the files of capability `cap` in the namespace `ns`.
    fn bind_capability(&mut self, ns: &str, cap: &Capability)
        ensures
            final(self).nodes() == with_capability(old(self).nodes(), ns@, *cap),
            final(self).bindings() == old(self).bindings(),
    {
        let d = concat3(ns, "/cap/", cap.name.as_str());
        self.vfs.mkdir(d.as_str());
        let version_path = concat2(d.as_str(), "/version");
        self.vfs.add_node(version_path.as_str(), Vnode::new_file(owned("version"), cap.version.as_str().as_bytes_vec()));
        let ghost start = self.nodes();
        let mut i: usize = 0;
        proof {
            assert(cap.paths@.subrange(0, 0) =~= Seq::<String>::empty());
        }
        while i < cap.paths.len()
            invariant
                i <= cap.paths@.len(),
                d@ == cap_dir(ns@, cap.name@),
                self.nodes() == with_cap_paths(start, d@, cap.paths@.subrange(0, i as int)),
                self.bindings() == old(self).bindings(),
            decreases cap.paths@.len() - i,
        {
            let p = &cap.paths[i];
            let trimmed = trim_leading_slashes(p.as_str());
            let file_path = concat3(d.as_str(), "/", trimmed.as_str());
            self.vfs.add_node(file_path.as_str(), Vnode::new_file(p.clone(), Vec::new()));
            proof {
                let s1 = cap.paths@.subrange(0, i + 1);
                assert(s1.drop_last() =~= cap.paths@.subrange(0, i as int));
                assert(s1.last() == cap.paths@[i as int]);
            }
            i = i + 1;
        }
        proof {
            assert(cap.paths@.subrange(0, cap.paths@.len() as int) =~= cap.paths@);
        }
    }

    /// Creates the namespace of the agent that `manifest` describes under
    /// `/net/{agent_id}`: its directory, hostname file, control files
    /// (`capabilities_json` being the capabilities as JSON), message boxes,
    /// and a directory for each capability; binds the agent to it and
    /// returns its path.
    #[verifier::rlimit(40)]
    pub fn create_namespace(&mut self, manifest: &CapabilityManifest, capabilities_json: Vec<u8>) -> (ns: String)
        ensures
            ns@ == agent_base(manifest.agent_id@),
            final(self).nodes() == with_agent_namespace(old(self).nodes(), *manifest, capabilities_json@),
            final(self).bindings() == old(self).bindings().insert(manifest.agent_id@, ns@),
    {
        let ns = concat2("/net/", manifest.agent_id.as_str());
        self.vfs.mkdir(ns.as_str());
        let host_path = concat2(ns.as_str(), "/hostname");
        self.vfs.add_node(host_path.as_str(), Vnode::new_file(owned("hostname"), manifest.hostname.as_str().as_bytes_vec()));
        let status_path = concat2(ns.as_str(), "/ctl/status");
        self.vfs.add_node(status_path.as_str(), Vnode::new_ctl(owned("status"), owned("connected")));
        let caps_path = concat2(ns.as_str(), "/ctl/capabilities");
        self.vfs.add_node(caps_path.as_str(), Vnode::new_file(owned("capabilities"), capabilities_json));
        let msg_path = concat2(ns.as_str(), "/msg");
        self.vfs.mkdir(msg_path.as_str());
        let inbox_path = concat2(ns.as_str(), "/msg/inbox");
        self.vfs.add_node(inbox_path.as_str(), Vnode::new_file(owned("inbox"), Vec::new()));
        let outbox_path = concat2(ns.as_str(), "/msg/outbox");
        self.vfs.add_node(outbox_path.as_str(), Vnode::new_file(owned("outbox"), Vec::new()));
        let ghost start = self.nodes();
        let ghost b0 = self.bindings();
        let mut i: usize = 0;
        proof {
            assert(manifest.capabilities@.subrange(0, 0) =~= Seq::<Capability>::empty());
        }
        while i < manifest.capabilities.len()
            invariant
                i <= manifest.capabilities@.len(),
                self.nodes() == with_capabilities(start, ns@, manifest.capabilities@.subrange(0, i as int)),
                self.bindings() == b0,
            decreases manifest.capabilities@.len() - i,
        {
            self.bind_capability(ns.as_str(), &manifest.capabilities[i]);
            proof {
                let s1 = manifest.capabilities@.subrange(0, i + 1);
                assert(s1.drop_last() =~= manifest.capabilities@.subrange(0, i as int));
                assert(s1.last() == manifest.capabilities@[i as int]);
            }
            i = i + 1;
        }
        proof {
            assert(manifest.capabilities@.subrange(0, manifest.capabilities@.len() as int) =~= manifest.capabilities@);
        }
        let ghost before = binding_table(self.bindings);
        bindings_insert(&mut self.bindings, manifest.agent_id.clone(), ns.clone());
        proof {
            assert(self.bindings() =~= b0.insert(manifest.agent_id@, ns@)) by {
                assert(binding_table(self.bindings) == before.insert(manifest.agent_id@, ns));
            }
        }
        ns
    }

    /// Removes the agent's binding and unmounts its namespace: every node
    /// at `/net/{agent_id}` or below it leaves.
    pub fn remove_namespace(&mut self, agent_id: &str)
        ensures
            final(self).bindings() == old(self).bindings().remove(agent_id@),
            old(self).bindings().contains_key(agent_id@) ==> final(self).nodes() == without_namespace(without_namespace(old(self).nodes(), agent_id@), agent_id@),
            !old(self).bindings().contains_key(agent_id@) ==> final(self).nodes() == without_namespace(old(self).nodes(), agent_id@),
    {
        let ghost before = binding_table(self.bindings);
        let removed = bindings_remove(&mut self.bindings, agent_id);
        proof {
            assert(self.bindings() =~= old(self).bindings().remove(agent_id@)) by {
                assert(binding_table(self.bindings) == before.remove(agent_id@));
            }
        }
        if removed.is_some() {
            self.vfs.unmount_agent_ns(agent_id);
        }
        self.vfs.unmount_agent_ns(agent_id);
    }

    /// The namespace path the agent is bound to, if any.
    pub fn resolve(&self, agent_id: &str) -> (r: Option<String>)
        ensures
            r matches Some(p) ==> self.bindings().contains_key(agent_id@) && self.bindings()[agent_id@] == p@,
            r is None ==> !self.bindings().contains_key(agent_id@),
    {
        bindings_get(&self.bindings, agent_id)
    }

    /// Every binding once, as agent id and namespace path, in the table's
    /// own order.
    pub fn list_namespaces(&self) -> (r: Vec<(String, String)>)
        ensures
            r@.len() == self.bindings().dom().len(),
            forall|i: int| 0 <= i < r@.len() ==> #[trigger] self.bindings().contains_key(r@[i].0@)
                && self.bindings()[r@[i].0@] == r@[i].1@,
            forall|i: int, j: int| 0 <= i < j < r@.len() ==> r@[i].0@ != r@[j].0@,
            forall|k: Seq<char>| #[trigger] self.bindings().contains_key(k) ==> exists|i: int| 0 <= i < r@.len() && r@[i].0@ == k,
    {
        let r = bindings_entries(&self.bindings);
        proof {
            assert(self.bindings().dom() =~= binding_table(self.bindings).dom());
            assert forall|i: int| 0 <= i < r@.len() implies #[trigger] self.bindings().contains_key(r@[i].0@)
                && self.bindings()[r@[i].0@] == r@[i].1@ by {
                assert(binding_table(self.bindings).contains_key(r@[i].0@));
            }
        }
        r
    }
}

} // verus!

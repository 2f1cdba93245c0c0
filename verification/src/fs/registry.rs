//! In-memory registry of all virtual nodes, keyed by canonical path.
use vstd::prelude::*;
use vstd::string::*;
use dashmap::DashMap;
use crate::fs::order::{insert_sorted, strictly_sorted};
use crate::fs::path::{
    child_name, child_name_of, last_segment, last_segment_of, normalize, normalized, parent_of,
    parent_path, root,
};
use crate::fs::vnode::{read_bytes, texts, write_refusal, written, VfsError, Vnode, VnodeView};
use crate::text::{concat2, concat3, has_prefix, owned, same_text, starts_with};

verus! {

/// What the registry's table holds: canonical path to node.
pub uninterp spec fn vfs_table(m: DashMap<String, Vnode>) -> Map<Seq<char>, Vnode>;

/// `DashMap::new`: an empty table.
#[verifier::external_body]
fn table_new() -> (r: DashMap<String, Vnode>)
    ensures
        vfs_table(r) == no_nodes(),
{
    DashMap::new()
}

/// `DashMap::get`, cloning the node out: the entry for `key`, if any.
#[verifier::external_body]
fn table_get(m: &DashMap<String, Vnode>, key: &str) -> (r: Option<Vnode>)
    ensures
        r == (if vfs_table(*m).contains_key(key@) { Some(vfs_table(*m)[key@]) } else { None }),
{
    m.get(key).map(|e| e.clone())
}

/// `DashMap::contains_key`.
#[verifier::external_body]
fn table_contains(m: &DashMap<String, Vnode>, key: &str) -> (r: bool)
    ensures
        r == vfs_table(*m).contains_key(key@),
{
    m.contains_key(key)
}

/// `DashMap::insert`: the entry for `key` becomes `v`, the others stay.
#[verifier::external_body]
fn table_insert(m: &mut DashMap<String, Vnode>, key: String, v: Vnode)
    ensures
        vfs_table(*final(m)) == vfs_table(*old(m)).insert(key@, v),
{
    m.insert(key, v);
}

/// `DashMap::remove`: the entry for `key` leaves and is returned.
#[verifier::external_body]
fn table_remove(m: &mut DashMap<String, Vnode>, key: &str) -> (r: Option<Vnode>)
    ensures
        vfs_table(*final(m)) == vfs_table(*old(m)).remove(key@),
        r == (if vfs_table(*old(m)).contains_key(key@) { Some(vfs_table(*old(m))[key@]) } else { None }),
{
    m.remove(key).map(|(_, v)| v)
}

/// `DashMap::iter`, copying each key out: every key once, in the table's
/// own order.
#[verifier::external_body]
fn table_keys(m: &DashMap<String, Vnode>) -> (r: Vec<String>)
    ensures
        (forall|i: int| 0 <= i < r@.len() ==> #[trigger] vfs_table(*m).contains_key(r@[i]@)),
        (forall|k: Seq<char>| #[trigger] vfs_table(*m).contains_key(k) ==> exists|i: int| 0 <= i < r@.len() && r@[i]@ == k),
{
    m.iter().map(|e| e.key().clone()).collect()
}

/// A table with no nodes.
pub open spec fn no_nodes() -> Map<Seq<char>, Vnode> {
    Map::empty()
}

/// The views of every node.
pub open spec fn views(m: Map<Seq<char>, Vnode>) -> Map<Seq<char>, VnodeView> {
    m.map_values(|v: Vnode| v@)
}

/// `children` without any occurrence of `x`.
pub open spec fn without(children: Seq<Seq<char>>, x: Seq<char>) -> Seq<Seq<char>>
    decreases children.len(),
{
    if children.len() == 0 {
        children
    } else if children.last() == x {
        without(children.drop_last(), x)
    } else {
        without(children.drop_last(), x).push(children.last())
    }
}

/// The nodes after recording `seg` among the children of the directory at
/// `parent` (nothing changes when there is no such directory or it already
/// lists `seg`).
pub open spec fn link_child(m: Map<Seq<char>, VnodeView>, parent: Option<Seq<char>>, seg: Seq<char>) -> Map<Seq<char>, VnodeView> {
    match parent {
        Some(p) => if m.contains_key(p) {
            match m[p] {
                VnodeView::Dir { name, children } => if children.contains(seg) {
                    m
                } else {
                    m.insert(p, VnodeView::Dir { name, children: children.push(seg) })
                },
                _ => m,
            }
        } else {
            m
        },
        None => m,
    }
}

/// The nodes after dropping `seg` from the children of the directory at
/// `parent` (nothing changes when there is no such directory).
pub open spec fn unlink_child(m: Map<Seq<char>, VnodeView>, parent: Option<Seq<char>>, seg: Seq<char>) -> Map<Seq<char>, VnodeView> {
    match parent {
        Some(p) => if m.contains_key(p) {
            match m[p] {
                VnodeView::Dir { name, children } => m.insert(p, VnodeView::Dir { name, children: without(children, seg) }),
                _ => m,
            }
        } else {
            m
        },
        None => m,
    }
}

/// The nodes after placing `node` at the canonical form of `path` and
/// linking it into its parent directory.
pub open spec fn with_node(m: Map<Seq<char>, VnodeView>, path: Seq<char>, node: VnodeView) -> Map<Seq<char>, VnodeView> {
    let p = normalized(path);
    link_child(m.insert(p, node), parent_of(p), last_segment(p))
}

/// The nodes after creating a directory at the canonical form of `path`.
pub open spec fn with_dir(m: Map<Seq<char>, VnodeView>, path: Seq<char>) -> Map<Seq<char>, VnodeView> {
    with_node(m, path, VnodeView::Dir { name: normalized(path), children: Seq::empty() })
}

/// The nodes after removing the node at the canonical form of `path` and
/// unlinking it from its parent directory.
pub open spec fn without_node(m: Map<Seq<char>, VnodeView>, path: Seq<char>) -> Map<Seq<char>, VnodeView> {
    let p = normalized(path);
    if m.contains_key(p) {
        unlink_child(m.remove(p), parent_of(p), last_segment(p))
    } else {
        m
    }
}

/// The namespace root of an agent.
pub open spec fn agent_base(agent_id: Seq<char>) -> Seq<char> {
    "/net/"@ + agent_id
}

/// `key` is the agent namespace root `base` or lies below it.
pub open spec fn under(key: Seq<char>, base: Seq<char>) -> bool {
    key == base || starts_with(key, base + root())
}

/// The keys of `m` at or below `base`.
pub open spec fn keys_under(m: Map<Seq<char>, VnodeView>, base: Seq<char>) -> Set<Seq<char>> {
    m.dom().filter(|k: Seq<char>| under(k, base))
}

/// The nodes after an agent's namespace is unmounted: every node at or
/// below its root leaves, and the root's name is dropped from its parent.
pub open spec fn without_namespace(m: Map<Seq<char>, VnodeView>, agent_id: Seq<char>) -> Map<Seq<char>, VnodeView> {
    let base = agent_base(agent_id);
    unlink_child(m.remove_keys(keys_under(m, base)), parent_of(base), last_segment(normalized(base)))
}

/// The nodes after an agent's namespace is mounted.
pub open spec fn with_namespace(m: Map<Seq<char>, VnodeView>, agent_id: Seq<char>, hostname: Seq<char>) -> Map<Seq<char>, VnodeView> {
    let base = agent_base(agent_id);
    let m1 = with_dir(m, base);
    let m2 = with_node(m1, base + "/hostname"@, VnodeView::File { name: "hostname"@, content: crate::fs::registry::utf8_of(hostname) });
    let m3 = with_dir(m2, base + "/ctl"@);
    let m4 = with_node(m3, base + "/ctl/status"@, VnodeView::Ctl { name: "status"@, status: "connected"@ });
    let m5 = with_node(m4, base + "/ctl/capabilities"@, VnodeView::File { name: "capabilities"@, content: seq![91u8, 93u8] });
    let m6 = with_dir(m5, base + "/msg"@);
    let m7 = with_node(m6, base + "/msg/inbox"@, VnodeView::File { name: "inbox"@, content: Seq::empty() });
    with_node(m7, base + "/msg/outbox"@, VnodeView::File { name: "outbox"@, content: Seq::empty() })
}

/// The UTF-8 bytes of a text.
pub open spec fn utf8_of(s: Seq<char>) -> Seq<u8> {
    vstd::utf8::encode_utf8(s)
}

/// The names of the direct children of the directory at `path`, found by
/// scanning every key.
pub open spec fn listing(m: Map<Seq<char>, VnodeView>, path: Seq<char>) -> Set<Seq<char>> {
    Set::new(|c: Seq<char>| exists|k: Seq<char>| m.contains_key(k) && child_name_of(normalized(path), k) == Some(c))
}

/// The keys among the first `n` of `keys` that lie at or below `base`.
pub open spec fn removed_prefix(keys: Seq<String>, n: int, base: Seq<char>) -> Set<Seq<char>> {
    Set::new(|k: Seq<char>| exists|j: int| 0 <= j < n && #[trigger] keys[j]@ == k && under(k, base))
}

/// The nodes a fresh registry is seeded with: the core directories, the
/// control files and the plumber rules file.
pub open spec fn seed_nodes() -> Map<Seq<char>, VnodeView> {
    Map::<Seq<char>, VnodeView>::empty()
        .insert("/net"@, VnodeView::Dir { name: "/net"@, children: Seq::empty() })
        .insert("/ai"@, VnodeView::Dir { name: "/ai"@, children: Seq::empty() })
        .insert("/proc"@, VnodeView::Dir { name: "/proc"@, children: Seq::empty() })
        .insert("/msg"@, VnodeView::Dir { name: "/msg"@, children: Seq::empty() })
        .insert("/plumber"@, VnodeView::Dir { name: "/plumber"@, children: seq!["rules"@] })
        .insert("/ctl"@, VnodeView::Dir { name: "/ctl"@, children: seq!["status"@, "shutdown"@] })
        .insert("/ctl/status"@, VnodeView::Ctl { name: "status"@, status: "ok"@ })
        .insert("/ctl/shutdown"@, VnodeView::Ctl { name: "shutdown"@, status: "write 1 to shutdown"@ })
        .insert("/plumber/rules"@, VnodeView::File { name: "rules"@, content: seq![91u8, 93u8] })
}

/// After a node is added, its canonical path exists; a file, control file
/// or symlink is found there exactly as added.
pub proof fn added_node_is_found(m: Map<Seq<char>, VnodeView>, path: Seq<char>, node: VnodeView)
    ensures
        with_node(m, path, node).contains_key(normalized(path)),
        !(node is Dir) ==> with_node(m, path, node)[normalized(path)] == node,
{
}

/// After a directory is made, its canonical path exists.
pub proof fn made_dir_exists(m: Map<Seq<char>, VnodeView>, path: Seq<char>)
    ensures
        with_dir(m, path).contains_key(normalized(path)),
{
}

/// After a node is removed, nothing is found at its canonical path.
pub proof fn removed_node_is_gone(m: Map<Seq<char>, VnodeView>, path: Seq<char>)
    ensures
        !without_node(m, path).contains_key(normalized(path)),
{
}

/// Removing a node changes no node other than it and its parent directory.
pub proof fn remove_touches_only_parent(m: Map<Seq<char>, VnodeView>, path: Seq<char>, k: Seq<char>)
    requires
        m.contains_key(k),
        k != normalized(path),
        parent_of(normalized(path)) != Some(k),
    ensures
        without_node(m, path).contains_key(k),
        without_node(m, path)[k] == m[k],
{
}

/// Unmounting an agent's namespace removes every node at or below its root.
pub proof fn unmount_removes_namespace(m: Map<Seq<char>, VnodeView>, agent_id: Seq<char>, k: Seq<char>)
    requires
        under(k, agent_base(agent_id)),
    ensures
        !without_namespace(m, agent_id).contains_key(k),
{
}

/// Unmounting an agent's namespace keeps every node outside it (other than
/// the parent directory, whose listing loses the agent) exactly as it was;
/// in particular `/net/{id}0` survives the unmount of `/net/{id}`.
pub proof fn unmount_keeps_others(m: Map<Seq<char>, VnodeView>, agent_id: Seq<char>, k: Seq<char>)
    requires
        m.contains_key(k),
        !under(k, agent_base(agent_id)),
        parent_of(agent_base(agent_id)) != Some(k),
    ensures
        without_namespace(m, agent_id).contains_key(k),
        without_namespace(m, agent_id)[k] == m[k],
{
}

/// A file written through the registry reads back the bytes written.
pub proof fn registry_read_after_write(m: Map<Seq<char>, VnodeView>, p: Seq<char>, data: Seq<u8>)
    requires
        m.contains_key(p),
        m[p] is File,
    ensures
        read_bytes(m.insert(p, written(m[p], data))[p]) == data,
{
}

/// The seeded registry holds the core directories and control files.
pub proof fn seed_holds_core_namespace()
    ensures
        seed_nodes().contains_key("/net"@),
        seed_nodes().contains_key("/ai"@),
        seed_nodes().contains_key("/proc"@),
        seed_nodes().contains_key("/msg"@),
        seed_nodes().contains_key("/plumber"@),
        seed_nodes().contains_key("/ctl"@),
        seed_nodes().contains_key("/ctl/status"@),
{
}

proof fn views_insert(m: Map<Seq<char>, Vnode>, k: Seq<char>, v: Vnode)
    ensures
        views(m.insert(k, v)) == views(m).insert(k, v@),
{
    assert(views(m.insert(k, v)) =~= views(m).insert(k, v@));
}

proof fn views_remove(m: Map<Seq<char>, Vnode>, k: Seq<char>)
    ensures
        views(m.remove(k)) == views(m).remove(k),
{
    assert(views(m.remove(k)) =~= views(m).remove(k));
}

/// Whether `x` is among `v`.
fn contains_text(v: &Vec<String>, x: &str) -> (r: bool)
    ensures
        r == texts(v@).contains(x@),
{
    let mut i: usize = 0;
    while i < v.len()
        invariant
            i <= v@.len(),
            forall|j: int| 0 <= j < i ==> texts(v@)[j] != x@,
        decreases v@.len() - i,
    {
        if same_text(v[i].as_str(), x) {
            proof {
                assert(texts(v@)[i as int] == x@);
            }
            return true;
        }
        i = i + 1;
    }
    false
}

/// `v` without any occurrence of `x`.
fn without_text(v: &Vec<String>, x: &str) -> (r: Vec<String>)
    ensures
        texts(r@) == without(texts(v@), x@),
{
    let mut out: Vec<String> = Vec::new();
    let mut i: usize = 0;
    proof {
        assert(texts(v@).subrange(0, 0) =~= Seq::<Seq<char>>::empty());
        assert(texts(out@) =~= Seq::<Seq<char>>::empty());
    }
    while i < v.len()
        invariant
            i <= v@.len(),
            texts(out@) == without(texts(v@).subrange(0, i as int), x@),
        decreases v@.len() - i,
    {
        let ghost prefix = texts(v@).subrange(0, i + 1);
        proof {
            assert(prefix.drop_last() =~= texts(v@).subrange(0, i as int));
            assert(prefix.last() == v@[i as int]@);
        }
        if !same_text(v[i].as_str(), x) {
            out.push(v[i].clone());
            proof {
                assert(texts(out@) =~= without(texts(v@).subrange(0, i as int), x@).push(v@[i as int]@));
            }
        }
        i = i + 1;
    }
    proof {
        assert(texts(v@).subrange(0, v@.len() as int) =~= texts(v@));
    }
    out
}

/// In-memory registry of all virtual nodes.
#[derive(Debug)]
pub struct VfsRegistry {
    nodes: DashMap<String, Vnode>,
}

impl VfsRegistry {
    /// The nodes, by canonical path.
    pub closed spec fn nodes(&self) -> Map<Seq<char>, VnodeView> {
        views(vfs_table(self.nodes))
    }

    /// A registry seeded with the core Plan 9-inspired namespace.
    pub fn new() -> (r: Self)
        ensures
            r.nodes() == seed_nodes(),
    {
        let mut nodes = table_new();
        let ghost mut m = vfs_table(nodes);
        let mut rules_dir = Vec::new();
        rules_dir.push(owned("rules"));
        let mut ctl_dir = Vec::new();
        ctl_dir.push(owned("status"));
        ctl_dir.push(owned("shutdown"));
        let mut rules = Vec::new();
        rules.push(91u8);
        rules.push(93u8);
        table_insert(&mut nodes, owned("/net"), Vnode::new_dir(owned("/net")));
        table_insert(&mut nodes, owned("/ai"), Vnode::new_dir(owned("/ai")));
        table_insert(&mut nodes, owned("/proc"), Vnode::new_dir(owned("/proc")));
        table_insert(&mut nodes, owned("/msg"), Vnode::new_dir(owned("/msg")));
        table_insert(&mut nodes, owned("/plumber"), Vnode::Dir(crate::fs::vnode::Vdir { name: owned("/plumber"), children: rules_dir }));
        table_insert(&mut nodes, owned("/ctl"), Vnode::Dir(crate::fs::vnode::Vdir { name: owned("/ctl"), children: ctl_dir }));
        table_insert(&mut nodes, owned("/ctl/status"), Vnode::new_ctl(owned("status"), owned("ok")));
        table_insert(&mut nodes, owned("/ctl/shutdown"), Vnode::new_ctl(owned("shutdown"), owned("write 1 to shutdown")));
        table_insert(&mut nodes, owned("/plumber/rules"), Vnode::new_file(owned("rules"), rules));
        let r = VfsRegistry { nodes };
        proof {
            assert(texts(rules_dir@) =~= seq!["rules"@]);
            assert(texts(ctl_dir@) =~= seq!["status"@, "shutdown"@]);
            assert(rules@ =~= seq![91u8, 93u8]);
            assert(texts(Seq::<String>::empty()) =~= Seq::<Seq<char>>::empty());
            assert(r.nodes() =~= seed_nodes());
        }
        r
    }

    /// Records the last segment of `child` among the children of the
    /// directory at `parent`.
    fn link_child(&mut self, parent: Option<String>, child: &str)
        ensures
            final(self).nodes() == link_child(old(self).nodes(), match parent { Some(p) => Some(p@), None => None }, last_segment(child@)),
    {
        if let Some(p) = parent {
            match table_get(&self.nodes, p.as_str()) {
                Some(Vnode::Dir(d)) => {
                    let seg = last_segment_of(child);
                    if !contains_text(&d.children, seg.as_str()) {
                        let mut d2 = d;
                        d2.children.push(seg);
                        let ghost before = vfs_table(self.nodes);
                        table_insert(&mut self.nodes, p, Vnode::Dir(d2));
                        proof {
                            views_insert(before, p@, Vnode::Dir(d2));
                            assert(texts(d2.children@) =~= texts(d.children@).push(last_segment(child@)));
                        }
                    }
                }
                _ => {}
            }
        }
    }

    /// Drops the last segment of `child` from the children of the directory
    /// at `parent`.
    fn unlink_child(&mut self, parent: Option<String>, child_segment: &str)
        ensures
            final(self).nodes() == unlink_child(old(self).nodes(), match parent { Some(p) => Some(p@), None => None }, child_segment@),
    {
        if let Some(p) = parent {
            match table_get(&self.nodes, p.as_str()) {
                Some(Vnode::Dir(d)) => {
                    let kept = without_text(&d.children, child_segment);
                    let d2 = crate::fs::vnode::Vdir { name: d.name, children: kept };
                    let ghost before = vfs_table(self.nodes);
                    table_insert(&mut self.nodes, p, Vnode::Dir(d2));
                    proof {
                        views_insert(before, p@, Vnode::Dir(d2));
                    }
                }
                _ => {}
            }
        }
    }

    /// Places `node` under the key `p` and links it into its parent
    /// directory.
    fn place(&mut self, p: String, node: Vnode)
        ensures
            final(self).nodes() == link_child(old(self).nodes().insert(p@, node@), parent_of(p@), last_segment(p@)),
    {
        let ghost before = vfs_table(self.nodes);
        let parent = parent_path(p.as_str());
        let seg_source = p.clone();
        table_insert(&mut self.nodes, p, node);
        proof {
            views_insert(before, seg_source@, node);
        }
        self.link_child(parent, seg_source.as_str());
    }

    /// Places a node at the canonical form of `path` and links it into its
    /// parent directory.
    pub fn add_node(&mut self, path: &str, node: Vnode)
        ensures
            final(self).nodes() == with_node(old(self).nodes(), path@, node@),
    {
        let p = normalize(path);
        self.place(p, node);
    }

    /// Creates an empty directory, named by its canonical path, at the
    /// canonical form of `path`.
    pub fn mkdir(&mut self, path: &str)
        ensures
            final(self).nodes() == with_dir(old(self).nodes(), path@),
    {
        let p = normalize(path);
        let dir = Vnode::new_dir(p.clone());
        self.place(p, dir);
    }

    /// A handle on the node at the canonical form of `path`, if there is
    /// one. Reads and writes through the handle go to the registry's node,
    /// so every handle on a path sees what any of them wrote.
    pub fn get(&self, path: &str) -> (r: Option<NodeHandle>)
        ensures
            r matches Some(h) ==> self.nodes().contains_key(normalized(path@)) && h.path() == normalized(path@),
            r is None ==> !self.nodes().contains_key(normalized(path@)),
    {
        let p = normalize(path);
        if table_contains(&self.nodes, p.as_str()) {
            Some(NodeHandle { path: p })
        } else {
            None
        }
    }

    /// The node stored under the canonical path `p`, if any.
    fn node_at(&self, p: &str) -> (r: Option<Vnode>)
        ensures
            r matches Some(v) ==> self.nodes().contains_key(p@) && self.nodes()[p@] == v@,
            r is None ==> !self.nodes().contains_key(p@),
    {
        table_get(&self.nodes, p)
    }

    /// Whether a node lives at the canonical form of `path`.
    pub fn exists_path(&self, path: &str) -> (b: bool)
        ensures
            b == self.nodes().contains_key(normalized(path@)),
    {
        let p = normalize(path);
        table_contains(&self.nodes, p.as_str())
    }

    /// Removes the node at the canonical form of `path` and unlinks it from
    /// its parent directory.
    pub fn remove(&mut self, path: &str) -> (r: Option<Vnode>)
        ensures
            final(self).nodes() == without_node(old(self).nodes(), path@),
            r matches Some(v) ==> old(self).nodes().contains_key(normalized(path@)) && old(self).nodes()[normalized(path@)] == v@,
            r is None ==> !old(self).nodes().contains_key(normalized(path@)),
    {
        let p = normalize(path);
        let ghost before = vfs_table(self.nodes);
        let r = table_remove(&mut self.nodes, p.as_str());
        proof {
            views_remove(before, p@);
        }
        if r.is_some() {
            let parent = parent_path(p.as_str());
            let seg = last_segment_of(p.as_str());
            self.unlink_child(parent, seg.as_str());
        } else {
            proof {
                assert(before.remove(p@) =~= before);
            }
        }
        r
    }

    /// The names of the direct children of the directory at `path`, sorted
    /// and without repeats; empty when `path` is no directory.
    pub fn list(&self, path: &str) -> (r: Vec<String>)
        ensures
            strictly_sorted(texts(r@)),
            (self.nodes().contains_key(normalized(path@)) && self.nodes()[normalized(path@)] is Dir)
                ==> texts(r@).to_set() == listing(self.nodes(), path@),
            !(self.nodes().contains_key(normalized(path@)) && self.nodes()[normalized(path@)] is Dir) ==> r@.len() == 0,
    {
        let p = normalize(path);
        let mut out: Vec<String> = Vec::new();
        match table_get(&self.nodes, p.as_str()) {
            Some(node) => {
                if !node.is_dir() {
                    return out;
                }
            }
            None => {
                return out;
            }
        }
        let keys = table_keys(&self.nodes);
        let ghost m = self.nodes();
        let mut i: usize = 0;
        proof {
            assert(texts(out@).to_set() =~= Set::<Seq<char>>::empty());
        }
        while i < keys.len()
            invariant
                i <= keys@.len(),
                p@ == normalized(path@),
                m == self.nodes(),
                forall|j: int| 0 <= j < keys@.len() ==> #[trigger] m.contains_key(keys@[j]@),
                strictly_sorted(texts(out@)),
                texts(out@).to_set() == Set::new(|c: Seq<char>| exists|j: int| 0 <= j < i && child_name_of(p@, keys@[j]@) == Some(c)),
            decreases keys@.len() - i,
        {
            let ghost prev = texts(out@).to_set();
            match child_name(p.as_str(), keys[i].as_str()) {
                Some(c) => {
                    insert_sorted(&mut out, c);
                    proof {
                        assert(texts(out@).to_set() =~= Set::new(|c: Seq<char>| exists|j: int| 0 <= j < i + 1 && child_name_of(p@, keys@[j]@) == Some(c))) by {
                            assert forall|t: Seq<char>| (exists|j: int| 0 <= j < i + 1 && child_name_of(p@, keys@[j]@) == Some(t)) <==> texts(out@).to_set().contains(t) by {
                                if exists|j: int| 0 <= j < i + 1 && child_name_of(p@, keys@[j]@) == Some(t) {
                                    let j = choose|j: int| 0 <= j < i + 1 && child_name_of(p@, keys@[j]@) == Some(t);
                                    if j < i {
                                        assert(prev.contains(t));
                                    }
                                }
                            }
                        }
                    }
                }
                None => {
                    proof {
                        assert(texts(out@).to_set() =~= Set::new(|c: Seq<char>| exists|j: int| 0 <= j < i + 1 && child_name_of(p@, keys@[j]@) == Some(c))) by {
                            assert forall|t: Seq<char>| (exists|j: int| 0 <= j < i + 1 && child_name_of(p@, keys@[j]@) == Some(t)) ==> prev.contains(t) by {
                                if exists|j: int| 0 <= j < i + 1 && child_name_of(p@, keys@[j]@) == Some(t) {
                                    let j = choose|j: int| 0 <= j < i + 1 && child_name_of(p@, keys@[j]@) == Some(t);
                                    if j == i {
                                        assert(false);
                                    }
                                    assert(0 <= j < i);
                                }
                            }
                        }
                    }
                }
            }
            i = i + 1;
        }
        proof {
            assert(texts(out@).to_set() =~= listing(m, path@)) by {
                assert forall|t: Seq<char>| listing(m, path@).contains(t) implies texts(out@).to_set().contains(t) by {
                    let k = choose|k: Seq<char>| m.contains_key(k) && child_name_of(normalized(path@), k) == Some(t);
                    assert(vfs_table(self.nodes).contains_key(k));
                    let j = choose|j: int| 0 <= j < keys@.len() && keys@[j]@ == k;
                }
            }
        }
        out
    }

    /// Mounts an agent's namespace under `/net/{agent_id}`: its directory,
    /// hostname file, control files and message boxes.
    pub fn mount_agent_ns(&mut self, agent_id: &str, hostname: &str)
        ensures
            final(self).nodes() == with_namespace(old(self).nodes(), agent_id@, hostname@),
    {
        let base = concat2("/net/", agent_id);
        self.mkdir(base.as_str());
        let host_path = concat2(base.as_str(), "/hostname");
        self.add_node(host_path.as_str(), Vnode::new_file(owned("hostname"), hostname.as_bytes_vec()));
        let ctl_path = concat2(base.as_str(), "/ctl");
        self.mkdir(ctl_path.as_str());
        let status_path = concat2(base.as_str(), "/ctl/status");
        self.add_node(status_path.as_str(), Vnode::new_ctl(owned("status"), owned("connected")));
        let mut caps = Vec::new();
        caps.push(91u8);
        caps.push(93u8);
        let caps_path = concat2(base.as_str(), "/ctl/capabilities");
        self.add_node(caps_path.as_str(), Vnode::new_file(owned("capabilities"), caps));
        let msg_path = concat2(base.as_str(), "/msg");
        self.mkdir(msg_path.as_str());
        let inbox_path = concat2(base.as_str(), "/msg/inbox");
        self.add_node(inbox_path.as_str(), Vnode::new_file(owned("inbox"), Vec::new()));
        let outbox_path = concat2(base.as_str(), "/msg/outbox");
        self.add_node(outbox_path.as_str(), Vnode::new_file(owned("outbox"), Vec::new()));
        proof {
            assert(caps@ =~= seq![91u8, 93u8]);
        }
    }

    /// Unmounts an agent's namespace: every node at `/net/{agent_id}` or
    /// below it leaves (a sibling such as `/net/{agent_id}0` stays), and the
    /// agent's name is dropped from `/net`'s children.
    pub fn unmount_agent_ns(&mut self, agent_id: &str)
        ensures
            final(self).nodes() == without_namespace(old(self).nodes(), agent_id@),
    {
        let base = concat2("/net/", agent_id);
        let below = concat2(base.as_str(), "/");
        proof {
            reveal_strlit("/");
            assert("/"@ =~= root());
        }
        let keys = table_keys(&self.nodes);
        let ghost raw0 = vfs_table(self.nodes);
        let ghost m0 = self.nodes();
        let mut i: usize = 0;
        proof {
            assert(raw0.remove_keys(removed_prefix(keys@, 0, base@)) =~= raw0);
        }
        while i < keys.len()
            invariant
                i <= keys@.len(),
                base@ == agent_base(agent_id@),
                below@ == base@ + root(),
                forall|j: int| 0 <= j < keys@.len() ==> #[trigger] raw0.contains_key(keys@[j]@),
                vfs_table(self.nodes) == raw0.remove_keys(removed_prefix(keys@, i as int, base@)),
            decreases keys@.len() - i,
        {
            let ghost before = vfs_table(self.nodes);
            if same_text(keys[i].as_str(), base.as_str()) || has_prefix(keys[i].as_str(), below.as_str()) {
                table_remove(&mut self.nodes, keys[i].as_str());
                proof {
                    assert(under(keys@[i as int]@, base@));
                    assert(removed_prefix(keys@, i + 1, base@) =~= removed_prefix(keys@, i as int, base@).insert(keys@[i as int]@));
                    assert(vfs_table(self.nodes) =~= raw0.remove_keys(removed_prefix(keys@, i + 1, base@)));
                }
            } else {
                proof {
                    assert(!under(keys@[i as int]@, base@));
                    assert(removed_prefix(keys@, i + 1, base@) =~= removed_prefix(keys@, i as int, base@));
                }
            }
            i = i + 1;
        }
        proof {
            let removed = removed_prefix(keys@, keys@.len() as int, base@);
            assert(views(raw0.remove_keys(removed)) =~= m0.remove_keys(keys_under(m0, base@))) by {
                assert forall|k: Seq<char>| m0.contains_key(k) && under(k, base@) implies removed.contains(k) by {
                    assert(raw0.contains_key(k));
                    let j = choose|j: int| 0 <= j < keys@.len() && keys@[j]@ == k;
                    assert(keys@[j]@ == k);
                }
            }
        }
        let parent = parent_path(base.as_str());
        let normal_base = normalize(base.as_str());
        let seg = last_segment_of(normal_base.as_str());
        self.unlink_child(parent, seg.as_str());
    }

    /// The bytes of the node at `path`, or `NotFound`.
    pub fn read(&self, path: &str) -> (r: Result<Vec<u8>, VfsError>)
        ensures
            r matches Ok(b) ==> self.nodes().contains_key(normalized(path@)) && b@ == read_bytes(self.nodes()[normalized(path@)]),
            r matches Err(e) ==> e == VfsError::NotFound && !self.nodes().contains_key(normalized(path@)),
    {
        let p = normalize(path);
        match self.node_at(p.as_str()) {
            Some(node) => Ok(node.read()),
            None => Err(VfsError::NotFound),
        }
    }

    /// Writes `data` to the node at `path`: `NotFound` when there is none,
    /// the node's refusal for directories and symlinks.
    pub fn write(&mut self, path: &str, data: Vec<u8>) -> (r: Result<(), VfsError>)
        ensures
            !old(self).nodes().contains_key(normalized(path@)) ==> r == Err::<(), VfsError>(VfsError::NotFound) && final(self).nodes() == old(self).nodes(),
            old(self).nodes().contains_key(normalized(path@)) ==> match write_refusal(old(self).nodes()[normalized(path@)]) {
                Some(e) => r == Err::<(), VfsError>(e) && final(self).nodes() == old(self).nodes(),
                None => r is Ok && final(self).nodes() == old(self).nodes().insert(normalized(path@), written(old(self).nodes()[normalized(path@)], data@)),
            },
    {
        let p = normalize(path);
        self.write_at(p, data)
    }

    /// Writes `data` to the node stored under the canonical path `p`.
    fn write_at(&mut self, p: String, data: Vec<u8>) -> (r: Result<(), VfsError>)
        ensures
            !old(self).nodes().contains_key(p@) ==> r == Err::<(), VfsError>(VfsError::NotFound) && final(self).nodes() == old(self).nodes(),
            old(self).nodes().contains_key(p@) ==> match write_refusal(old(self).nodes()[p@]) {
                Some(e) => r == Err::<(), VfsError>(e) && final(self).nodes() == old(self).nodes(),
                None => r is Ok && final(self).nodes() == old(self).nodes().insert(p@, written(old(self).nodes()[p@], data@)),
            },
    {
        match table_get(&self.nodes, p.as_str()) {
            Some(node) => {
                let mut node = node;
                match node.write(data) {
                    Ok(()) => {
                        let ghost before = vfs_table(self.nodes);
                        table_insert(&mut self.nodes, p, node);
                        proof {
                            views_insert(before, p@, node);
                        }
                        Ok(())
                    }
                    Err(e) => Err(e),
                }
            }
            None => Err(VfsError::NotFound),
        }
    }
}

/// A handle on the node stored under a canonical path of a registry. It
/// holds no content of its own: reading and writing through it read and
/// write the registry's node.
#[derive(Debug, Clone)]
pub struct NodeHandle {
    path: String,
}

impl NodeHandle {
    /// The canonical path of the node the handle refers to.
    pub closed spec fn path(&self) -> Seq<char> {
        self.path@
    }

    /// The canonical path of the node the handle refers to.
    pub fn path_text(&self) -> (r: &str)
        ensures
            r@ == self.path(),
    {
        self.path.as_str()
    }

    /// Whether the registry holds a directory at the handle's path.
    pub fn is_dir(&self, vfs: &VfsRegistry) -> (b: bool)
        ensures
            b == (vfs.nodes().contains_key(self.path()) && vfs.nodes()[self.path()] is Dir),
    {
        match vfs.node_at(self.path.as_str()) {
            Some(node) => node.is_dir(),
            None => false,
        }
    }

    /// The bytes of the registry's node at the handle's path; nothing when
    /// the node has been removed.
    pub fn read(&self, vfs: &VfsRegistry) -> (r: Vec<u8>)
        ensures
            vfs.nodes().contains_key(self.path()) ==> r@ == read_bytes(vfs.nodes()[self.path()]),
            !vfs.nodes().contains_key(self.path()) ==> r@.len() == 0,
    {
        match vfs.node_at(self.path.as_str()) {
            Some(node) => node.read(),
            None => Vec::new(),
        }
    }

    /// Writes `data` to the registry's node at the handle's path, as
    /// `VfsRegistry::write` does: `NotFound` when it has been removed, the
    /// node's refusal for directories and symlinks.
    pub fn write(&self, vfs: &mut VfsRegistry, data: Vec<u8>) -> (r: Result<(), VfsError>)
        ensures
            !old(vfs).nodes().contains_key(self.path()) ==> r == Err::<(), VfsError>(VfsError::NotFound) && final(vfs).nodes() == old(vfs).nodes(),
            old(vfs).nodes().contains_key(self.path()) ==> match write_refusal(old(vfs).nodes()[self.path()]) {
                Some(e) => r == Err::<(), VfsError>(e) && final(vfs).nodes() == old(vfs).nodes(),
                None => r is Ok && final(vfs).nodes() == old(vfs).nodes().insert(self.path(), written(old(vfs).nodes()[self.path()], data@)),
            },
    {
        vfs.write_at(self.path.clone(), data)
    }
}

} // verus!

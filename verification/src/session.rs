//! What an agent's session does with the operations the agent sends: the
//! agent it registers, how its messages are stamped, and the answers to
//! its filesystem requests.
//!
//! Reading and writing the WebSocket frames is left to the caller.
use vstd::prelude::*;
use crate::agent::{Agent, AgentRegistry};
use crate::fs::registry::with_namespace;
use crate::queue::{messages_of, MessageQueue};
use crate::clock::{random_uuid, utc_now_millis};
use crate::fs::path::normalized;
use crate::fs::registry::VfsRegistry;
use crate::fs::vnode::{read_bytes, write_refusal, written, VfsError};
use crate::message::{CapabilityManifest, Message};
use crate::text::concat2;

verus! {

/// Whether `a` is the agent that a hello from `agent_id` with `manifest`
/// registers, with UUID value `uuid`, connected at `now`.
pub open spec fn is_hello_agent(a: Agent, agent_id: Seq<char>, manifest: CapabilityManifest, uuid: u128, now: i64) -> bool {
    &&& a.id@ == agent_id
    &&& a.uuid == uuid
    &&& a.hostname == manifest.hostname
    &&& a.namespace@ == "/net/"@ + agent_id
    &&& a.manifest == manifest
    &&& a.connected_at == now
    &&& a.last_heartbeat == now
}

/// The agent that a hello from `agent_id` with `manifest` registers, with
/// UUID value `uuid`, connected at `now`.
pub fn hello_agent_at(agent_id: &str, manifest: CapabilityManifest, uuid: u128, now: i64) -> (a: Agent)
    ensures
        is_hello_agent(a, agent_id@, manifest, uuid, now),
{
    Agent {
        id: agent_id.to_string(),
        uuid,
        hostname: manifest.hostname.clone(),
        namespace: concat2("/net/", agent_id),
        manifest,
        connected_at: now,
        last_heartbeat: now,
    }
}

/// The agent that a hello from `agent_id` with `manifest` registers, with a
/// random UUID, connected now.
pub fn hello_agent(agent_id: &str, manifest: CapabilityManifest) -> (a: Agent)
    ensures
        is_hello_agent(a, agent_id@, manifest, a.uuid, a.connected_at),
{
    let uuid = random_uuid();
    let now = utc_now_millis();
    hello_agent_at(agent_id, manifest, uuid, now)
}

/// Greets an agent that says hello: registers it, mounts its namespace
/// under `/net/{agent_id}`, and takes the messages queued for it, oldest
/// first, to be handed to it.
pub fn welcome(
    agents: &mut AgentRegistry,
    vfs: &mut VfsRegistry,
    queue: &mut MessageQueue,
    agent_id: &str,
    manifest: CapabilityManifest,
) -> (waiting: Vec<Message>)
    ensures
        exists|a: Agent| #[trigger] is_hello_agent(a, agent_id@, manifest, a.uuid, a.connected_at)
            && final(agents).agents() == old(agents).agents().insert(agent_id@, a),
        final(vfs).nodes() == with_namespace(old(vfs).nodes(), agent_id@, manifest.hostname@),
        final(queue).queues() == old(queue).queues().remove(agent_id@),
        waiting@ == (if old(queue).queues().contains_key(agent_id@) {
            messages_of(old(queue).queues()[agent_id@])
        } else {
            Seq::<Message>::empty()
        }),
{
    let hostname = manifest.hostname.clone();
    let agent = hello_agent(agent_id, manifest);
    proof {
        assert(is_hello_agent(agent, agent_id@, manifest, agent.uuid, agent.connected_at));
    }
    agents.register(agent);
    vfs.mount_agent_ns(agent_id, hostname.as_str());
    let mut waiting: Vec<Message> = Vec::new();
    let ghost q = old(queue).queues();
    let delivered = queue.drain_to(agent_id, &mut waiting);
    proof {
        if q.contains_key(agent_id@) {
            assert(q[agent_id@].take(q[agent_id@].len() as int) =~= q[agent_id@]);
            assert(waiting@ =~= messages_of(q[agent_id@]));
        } else {
            assert(waiting@ =~= Seq::<Message>::empty());
            assert(q.remove(agent_id@) =~= q);
        }
    }
    waiting
}

/// A message from the agent `agent_id`, stamped with its sender and the
/// sender's namespace.
pub fn stamp_sender(msg: Message, agent_id: &str) -> (m: Message)
    ensures
        m == (Message { sender: m.sender, sender_ns: m.sender_ns, ..msg }),
        m.sender@ == agent_id@,
        m.sender_ns@ == "/net/"@ + agent_id@,
{
    Message { sender: agent_id.to_string(), sender_ns: concat2("/net/", agent_id), ..msg }
}

/// The answer to a filesystem request: the path, the bytes read, and the
/// error, if any.
#[derive(Debug, Clone)]
pub struct FsResult {
    pub path: String,
    pub data: Option<Vec<u8>>,
    pub error: Option<String>,
}

/// The answer to a request to read `path`: its bytes, or `not found`.
pub fn fs_read_result(vfs: &VfsRegistry, path: String) -> (r: FsResult)
    ensures
        r.path == path,
        vfs.nodes().contains_key(normalized(path@)) ==> (r.data matches Some(d) && d@ == read_bytes(vfs.nodes()[normalized(path@)]))
            && r.error is None,
        !vfs.nodes().contains_key(normalized(path@)) ==> r.data is None && (r.error matches Some(e) && e@ == "not found"@),
{
    match vfs.read(path.as_str()) {
        Ok(data) => FsResult { path, data: Some(data), error: None },
        Err(e) => FsResult { path, data: None, error: Some(e.message()) },
    }
}

/// The error message of a refused write.
pub open spec fn refusal_message(e: VfsError) -> Seq<char> {
    match e {
        VfsError::NotFound => "not found"@,
        VfsError::IsDirectory => "cannot write to directory"@,
        VfsError::IsSymlink => "cannot write to symlink"@,
    }
}

/// Writes `data` to `path` and answers: no error when written, else the
/// refusal's message.
pub fn fs_write_result(vfs: &mut VfsRegistry, path: String, data: Vec<u8>) -> (r: FsResult)
    ensures
        r.path == path,
        r.data is None,
        !old(vfs).nodes().contains_key(normalized(path@)) ==> (r.error matches Some(e) && e@ == "not found"@)
            && final(vfs).nodes() == old(vfs).nodes(),
        old(vfs).nodes().contains_key(normalized(path@)) ==> match write_refusal(old(vfs).nodes()[normalized(path@)]) {
            Some(e) => (r.error matches Some(m) && m@ == refusal_message(e)) && final(vfs).nodes() == old(vfs).nodes(),
            None => r.error is None && final(vfs).nodes() == old(vfs).nodes().insert(
                normalized(path@),
                written(old(vfs).nodes()[normalized(path@)], data@),
            ),
        },
{
    match vfs.write(path.as_str(), data) {
        Ok(()) => FsResult { path, data: None, error: None },
        Err(e) => {
            let m = e.message();
            proof {
                assert(m@ == refusal_message(e));
            }
            FsResult { path, data: None, error: Some(m) }
        }
    }
}

/// The HTTP status a write through the HTTP API is answered with: 200 when
/// written, 404 when there is no node, 400 when the node refuses.
pub fn write_status(r: &Result<(), VfsError>) -> (s: u16)
    ensures
        r is Ok ==> s == 200,
        r matches Err(e) ==> s == (if e == VfsError::NotFound { 404u16 } else { 400u16 }),
{
    match r {
        Ok(()) => 200,
        Err(VfsError::NotFound) => 404,
        Err(_) => 400,
    }
}

} // verus!

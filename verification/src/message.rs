//! The message envelope used for all inter-agent communication, and the
//! records that travel with it.
//!
//! Identifiers are the 128-bit values of UUIDs, times are milliseconds
//! since the Unix epoch, and JSON payloads are carried as their compact
//! text.
use vstd::prelude::*;
use vstd::string::*;
use crate::clock::{random_uuid, utc_now_millis};
use crate::text::same_text;

verus! {

/// Plan 9-inspired message envelope.
#[derive(Debug, Clone)]
pub struct Message {
    pub id: u128,
    pub parent_id: Option<u128>,
    pub conversation_id: u128,
    pub timestamp: i64,
    pub sender: String,
    pub sender_ns: String,
    pub path: String,
    pub msg_type: String,
    /// The payload, as compact JSON text.
    pub data: String,
    /// Header names and values, each name once.
    pub headers: Vec<(String, String)>,
    /// Quantum routing metadata, as compact JSON text.
    pub quantum: Option<String>,
}

/// The character views of header pairs.
pub open spec fn header_view(h: Seq<(String, String)>) -> Seq<(Seq<char>, Seq<char>)> {
    h.map_values(|p: (String, String)| (p.0@, p.1@))
}

/// The value of the first header named `key`, if any.
pub open spec fn header_value(h: Seq<(Seq<char>, Seq<char>)>, key: Seq<char>) -> Option<Seq<char>>
    decreases h.len(),
{
    if h.len() == 0 {
        None
    } else if h[0].0 == key {
        Some(h[0].1)
    } else {
        header_value(h.drop_first(), key)
    }
}

/// Index of the first header named `key`, or -1.
pub open spec fn header_index(h: Seq<(Seq<char>, Seq<char>)>, key: Seq<char>) -> int
    decreases h.len(),
{
    if h.len() == 0 {
        -1
    } else if h[0].0 == key {
        0
    } else if header_index(h.drop_first(), key) < 0 {
        -1
    } else {
        1 + header_index(h.drop_first(), key)
    }
}

/// The headers after setting `key` to `value`: an existing header of that
/// name takes the value in place, otherwise the header is appended.
pub open spec fn header_set(h: Seq<(Seq<char>, Seq<char>)>, key: Seq<char>, value: Seq<char>) -> Seq<(Seq<char>, Seq<char>)> {
    if header_index(h, key) >= 0 {
        h.update(header_index(h, key), (key, value))
    } else {
        h.push((key, value))
    }
}

proof fn header_index_facts(h: Seq<(Seq<char>, Seq<char>)>, key: Seq<char>)
    ensures
        -1 <= header_index(h, key) < h.len(),
        header_index(h, key) >= 0 ==> h[header_index(h, key)].0 == key,
        forall|j: int| 0 <= j < h.len() && (header_index(h, key) < 0 || j < header_index(h, key)) ==> h[j].0 != key,
        header_index(h, key) >= 0 ==> header_value(h, key) == Some(h[header_index(h, key)].1),
        header_index(h, key) < 0 ==> header_value(h, key) is None,
    decreases h.len(),
{
    if h.len() > 0 && h[0].0 != key {
        header_index_facts(h.drop_first(), key);
        assert forall|j: int| 0 <= j < h.len() && (header_index(h, key) < 0 || j < header_index(h, key)) implies h[j].0 != key by {
            if j > 0 {
                assert(h[j] == h.drop_first()[j - 1]);
            }
        }
    }
}

/// The value at position `i` is found when no earlier header has its name.
proof fn header_value_at(h: Seq<(Seq<char>, Seq<char>)>, key: Seq<char>, i: int)
    requires
        0 <= i < h.len(),
        h[i].0 == key,
        forall|j: int| 0 <= j < i ==> h[j].0 != key,
    ensures
        header_value(h, key) == Some(h[i].1),
    decreases i,
{
    if i > 0 {
        assert forall|j: int| 0 <= j < i - 1 implies h.drop_first()[j].0 != key by {
            assert(h.drop_first()[j] == h[j + 1]);
        }
        header_value_at(h.drop_first(), key, i - 1);
    }
}

/// No header of the name is found when none has it.
proof fn header_value_absent(h: Seq<(Seq<char>, Seq<char>)>, key: Seq<char>)
    requires
        forall|j: int| 0 <= j < h.len() ==> h[j].0 != key,
    ensures
        header_value(h, key) is None,
    decreases h.len(),
{
    if h.len() > 0 {
        assert forall|j: int| 0 <= j < h.drop_first().len() implies h.drop_first()[j].0 != key by {
            assert(h.drop_first()[j] == h[j + 1]);
        }
        header_value_absent(h.drop_first(), key);
    }
}

/// A header that was set reads back the value it was set to, and the other
/// headers read as before.
pub proof fn header_read_after_set(h: Seq<(Seq<char>, Seq<char>)>, key: Seq<char>, value: Seq<char>, other: Seq<char>)
    ensures
        header_value(header_set(h, key, value), key) == Some(value),
        other != key ==> header_value(header_set(h, key, value), other) == header_value(h, other),
{
    header_index_facts(h, key);
    header_index_facts(h, other);
    let h2 = header_set(h, key, value);
    let i = header_index(h, key);
    if i >= 0 {
        header_value_at(h2, key, i);
        if other != key {
            let o = header_index(h, other);
            if o >= 0 {
                assert forall|j: int| 0 <= j < o implies h2[j].0 != other by {
                    if j != i {
                        assert(h2[j] == h[j]);
                    }
                }
                header_value_at(h2, other, o);
            } else {
                assert forall|j: int| 0 <= j < h2.len() implies h2[j].0 != other by {
                    if j != i {
                        assert(h2[j] == h[j]);
                    }
                }
                header_value_absent(h2, other);
            }
        }
    } else {
        header_value_at(h2, key, h.len() as int);
        if other != key {
            let o = header_index(h, other);
            if o >= 0 {
                assert forall|j: int| 0 <= j < o implies h2[j].0 != other by {
                    assert(h2[j] == h[j]);
                }
                header_value_at(h2, other, o);
            } else {
                assert forall|j: int| 0 <= j < h2.len() implies h2[j].0 != other by {
                    if j < h.len() {
                        assert(h2[j] == h[j]);
                    }
                }
                header_value_absent(h2, other);
            }
        }
    }
}

/// The value of the header named `key`, if any.
pub fn get_header(headers: &Vec<(String, String)>, key: &str) -> (r: Option<String>)
    ensures
        r matches Some(v) ==> header_value(header_view(headers@), key@) == Some(v@),
        r is None ==> header_value(header_view(headers@), key@) is None,
{
    match find_header(headers, key) {
        Some(i) => Some(headers[i].1.clone()),
        None => None,
    }
}

fn find_header(headers: &Vec<(String, String)>, key: &str) -> (r: Option<usize>)
    ensures
        r matches Some(i) ==> i < headers@.len() && header_index(header_view(headers@), key@) == i,
        r is None ==> header_index(header_view(headers@), key@) < 0,
        r matches Some(i) ==> header_value(header_view(headers@), key@) == Some(headers@[i as int].1@),
        r is None ==> header_value(header_view(headers@), key@) is None,
{
    let ghost hv = header_view(headers@);
    proof {
        header_index_facts(hv, key@);
    }
    let mut i: usize = 0;
    while i < headers.len()
        invariant
            i <= headers@.len(),
            hv == header_view(headers@),
            forall|j: int| 0 <= j < i ==> hv[j].0 != key@,
            -1 <= header_index(hv, key@) < hv.len(),
            header_index(hv, key@) >= 0 ==> hv[header_index(hv, key@)].0 == key@,
            forall|j: int| 0 <= j < hv.len() && (header_index(hv, key@) < 0 || j < header_index(hv, key@)) ==> hv[j].0 != key@,
            header_index(hv, key@) >= 0 ==> header_value(hv, key@) == Some(hv[header_index(hv, key@)].1),
            header_index(hv, key@) < 0 ==> header_value(hv, key@) is None,
        decreases headers@.len() - i,
    {
        if same_text(headers[i].0.as_str(), key) {
            proof {
                assert(hv[i as int].0 == key@);
                if header_index(hv, key@) < 0 || (i as int) < header_index(hv, key@) {
                    assert(false);
                }
            }
            return Some(i);
        }
        i = i + 1;
    }
    proof {
        if header_index(hv, key@) >= 0 {
            assert(hv[header_index(hv, key@)].0 == key@);
        }
    }
    None
}

/// Sets the header `key` to `value`, in place when it is present.
pub fn set_header(headers: &mut Vec<(String, String)>, key: String, value: String)
    ensures
        header_view(final(headers)@) == header_set(header_view(old(headers)@), key@, value@),
{
    match find_header(headers, key.as_str()) {
        Some(i) => {
            let ghost before = header_view(headers@);
            headers.set(i, (key, value));
            proof {
                assert(header_view(headers@) =~= before.update(i as int, (key@, value@)));
            }
        }
        None => {
            let ghost before = header_view(headers@);
            headers.push((key, value));
            proof {
                assert(header_view(headers@) =~= before.push((key@, value@)));
            }
        }
    }
}

impl Message {
    pub fn new(sender: String, path: String, msg_type: String) -> (m: Self)
        ensures
            m.parent_id is None,
            m.sender@ == sender@,
            m.sender_ns@ == "/net/unknown"@,
            m.path@ == path@,
            m.msg_type@ == msg_type@,
            m.data@ == "null"@,
            m.headers@.len() == 0,
            m.quantum is None,
    {
        Message {
            id: random_uuid(),
            parent_id: None,
            conversation_id: random_uuid(),
            timestamp: utc_now_millis(),
            sender,
            sender_ns: String::from_str("/net/unknown"),
            path,
            msg_type,
            data: String::from_str("null"),
            headers: Vec::new(),
            quantum: None,
        }
    }

    pub fn with_conversation(self, cid: u128) -> (m: Self)
        ensures
            m == (Message { conversation_id: cid, ..self }),
    {
        Message { conversation_id: cid, ..self }
    }

    pub fn with_parent(self, pid: u128) -> (m: Self)
        ensures
            m == (Message { parent_id: Some(pid), ..self }),
    {
        Message { parent_id: Some(pid), ..self }
    }

    /// Sets the payload to the given compact JSON text.
    pub fn with_data(self, data_json: String) -> (m: Self)
        ensures
            m == (Message { data: data_json, ..self }),
    {
        Message { data: data_json, ..self }
    }

    pub fn with_header(self, key: String, value: String) -> (m: Self)
        ensures
            header_view(m.headers@) == header_set(header_view(self.headers@), key@, value@),
            m.id == self.id && m.parent_id == self.parent_id && m.conversation_id == self.conversation_id,
            m.timestamp == self.timestamp && m.sender == self.sender && m.sender_ns == self.sender_ns,
            m.path == self.path && m.msg_type == self.msg_type && m.data == self.data && m.quantum == self.quantum,
    {
        let mut m = self;
        set_header(&mut m.headers, key, value);
        m
    }

    /// Attaches quantum metadata, given as compact JSON text.
    pub fn with_quantum(self, quantum_json: String) -> (m: Self)
        ensures
            m == (Message { quantum: Some(quantum_json), ..self }),
    {
        Message { quantum: Some(quantum_json), ..self }
    }
}

/// Response envelope from the hub.
#[derive(Debug, Clone)]
pub struct MessageResponse {
    pub message_id: u128,
    pub status: DispatchStatus,
    pub routed_to: Vec<String>,
    pub explanation: Option<String>,
    pub latency_ms: u64,
}

#[derive(Debug, Clone, Copy, PartialEq, Eq, Structural)]
pub enum DispatchStatus {
    Routed,
    Queued,
    Dropped,
    Error,
}

/// Agent capability manifest sent during registration.
#[derive(Debug, Clone)]
pub struct CapabilityManifest {
    pub agent_id: String,
    pub hostname: String,
    pub capabilities: Vec<Capability>,
    pub preferred_namespace: Option<String>,
}

#[derive(Debug, Clone)]
pub struct Capability {
    pub name: String,
    pub version: String,
    pub paths: Vec<String>,
    /// Metadata names and values, each value as compact JSON text.
    pub metadata: Vec<(String, String)>,
}

} // verus!

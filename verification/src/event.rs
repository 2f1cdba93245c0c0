//! Structured system events.
//!
//! Emitting and persisting events is left to the caller; this module
//! builds them.
use vstd::prelude::*;
use crate::clock::{random_uuid, utc_now_millis};
use crate::message::{header_set, header_view, set_header};

verus! {

/// System event severity level.
#[derive(Debug, Clone, Copy, PartialEq, Eq, Structural)]
pub enum EventSeverity {
    Debug,
    Info,
    Warn,
    Error,
}

/// Categories of system events.
#[derive(Debug, Clone, Copy, PartialEq, Eq, Structural)]
pub enum EventKind {
    MessageRouted,
    MessageDelivered,
    MessageFailed,
    EndpointHealthChanged,
    CircuitBreakerTripped,
    CircuitBreakerReset,
    AgentConnected,
    AgentDisconnected,
    QuantumStateUpdated,
    McpToolCalled,
    RateLimitHit,
    SystemStartup,
    SystemShutdown,
}

/// A structured system event. The id and conversation id are UUID values;
/// the timestamp is milliseconds since the Unix epoch; metadata values are
/// compact JSON text, each key once.
#[derive(Debug, Clone)]
pub struct Event {
    pub id: u128,
    pub timestamp: i64,
    pub kind: EventKind,
    pub severity: EventSeverity,
    pub source: String,
    pub message: String,
    pub conversation_id: Option<u128>,
    pub endpoint_id: Option<String>,
    pub agent_id: Option<String>,
    pub metadata: Vec<(String, String)>,
}

/// Whether `e` is a fresh informational event of kind `kind` from `source`
/// saying `message`, with id `id` and timestamp `now`.
pub open spec fn is_new_event(e: Event, kind: EventKind, source: Seq<char>, message: Seq<char>, id: u128, now: i64) -> bool {
    &&& e.id == id
    &&& e.timestamp == now
    &&& e.kind == kind
    &&& e.severity == EventSeverity::Info
    &&& e.source@ == source
    &&& e.message@ == message
    &&& e.conversation_id is None
    &&& e.endpoint_id is None
    &&& e.agent_id is None
    &&& e.metadata@.len() == 0
}

impl Event {
    /// A fresh informational event with id `id` at time `now`.
    pub fn new_at(kind: EventKind, source: String, message: String, id: u128, now: i64) -> (e: Self)
        ensures
            is_new_event(e, kind, source@, message@, id, now),
    {
        Event {
            id,
            timestamp: now,
            kind,
            severity: EventSeverity::Info,
            source,
            message,
            conversation_id: None,
            endpoint_id: None,
            agent_id: None,
            metadata: Vec::new(),
        }
    }

    /// A fresh informational event with a random id, stamped now.
    pub fn new(kind: EventKind, source: String, message: String) -> (e: Self)
        ensures
            is_new_event(e, kind, source@, message@, e.id, e.timestamp),
    {
        let id = random_uuid();
        let now = utc_now_millis();
        Event::new_at(kind, source, message, id, now)
    }

    pub fn with_severity(self, severity: EventSeverity) -> (e: Self)
        ensures
            e == (Event { severity, ..self }),
    {
        Event { severity, ..self }
    }

    pub fn with_conversation(self, id: u128) -> (e: Self)
        ensures
            e == (Event { conversation_id: Some(id), ..self }),
    {
        Event { conversation_id: Some(id), ..self }
    }

    pub fn with_endpoint(self, id: String) -> (e: Self)
        ensures
            e == (Event { endpoint_id: Some(id), ..self }),
    {
        Event { endpoint_id: Some(id), ..self }
    }

    pub fn with_agent(self, id: String) -> (e: Self)
        ensures
            e == (Event { agent_id: Some(id), ..self }),
    {
        Event { agent_id: Some(id), ..self }
    }

    /// Sets metadata `key` to the JSON text `value_json`, replacing any
    /// value the key had.
    pub fn with_metadata(self, key: String, value_json: String) -> (e: Self)
        ensures
            header_view(e.metadata@) == header_set(header_view(self.metadata@), key@, value_json@),
            e.id == self.id,
            e.timestamp == self.timestamp,
            e.kind == self.kind,
            e.severity == self.severity,
            e.source == self.source,
            e.message == self.message,
            e.conversation_id == self.conversation_id,
            e.endpoint_id == self.endpoint_id,
            e.agent_id == self.agent_id,
    {
        let mut e = self;
        set_header(&mut e.metadata, key, value_json);
        e
    }
}

} // verus!

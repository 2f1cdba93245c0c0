//! What the hub does with a routed message, and which operation an
//! orchestration request asks for.
use vstd::prelude::*;
use crate::agent::AgentRegistry;
use crate::message::{DispatchStatus, MessageResponse};
use crate::router::RoutingDecision;
use crate::text::{has_prefix, same_text, starts_with};

verus! {

/// The position of the first `/` at or after `from` in `s`, or its length.
pub open spec fn next_slash(s: Seq<char>, from: int) -> int
    decreases s.len() - from,
{
    if from >= s.len() {
        s.len() as int
    } else if s[from] == '/' {
        from
    } else {
        next_slash(s, from + 1)
    }
}

/// The agent that a destination in the agent namespace names: the segment
/// right after `/net/`.
pub open spec fn net_target(dest: Seq<char>) -> Option<Seq<char>> {
    if starts_with(dest, "/net/"@) {
        Some(dest.subrange(5, next_slash(dest, 5)))
    } else {
        None
    }
}

proof fn next_slash_bounds(s: Seq<char>, from: int)
    requires
        0 <= from <= s.len(),
    ensures
        from <= next_slash(s, from) <= s.len(),
        forall|j: int| from <= j < next_slash(s, from) ==> s[j] != '/',
        next_slash(s, from) < s.len() ==> s[next_slash(s, from)] == '/',
    decreases s.len() - from,
{
    if from < s.len() && s[from] != '/' {
        next_slash_bounds(s, from + 1);
    }
}

/// The agent that the destination `dest` names, when it lies in the agent
/// namespace `/net/`.
pub fn delivery_target(dest: &str) -> (r: Option<String>)
    ensures
        r matches Some(a) ==> net_target(dest@) == Some(a@),
        r is None ==> net_target(dest@) is None,
{
    if !has_prefix(dest, "/net/") {
        return None;
    }
    proof {
        reveal_strlit("/net/");
    }
    let cs = crate::text::chars_of(dest);
    let mut end: usize = 5;
    proof {
        next_slash_bounds(dest@, 5);
    }
    while end < cs.len() && cs[end] != '/'
        invariant
            5 <= end <= cs@.len(),
            cs@ == dest@,
            next_slash(dest@, end as int) == next_slash(dest@, 5),
        decreases cs@.len() - end,
    {
        end = end + 1;
    }
    Some(String::from_str(dest.substring_char(5, end)))
}

/// What becomes of a routed message.
#[derive(Debug, Clone, PartialEq, Eq)]
pub enum Delivery {
    /// The message goes to the connected agent with this id.
    Send(String),
    /// The agent with this id is not connected: the message waits in its
    /// queue.
    Queue(String),
    /// The message does not go to an agent.
    Nothing,
}

/// What becomes of a message routed to `selected`, with the agents in
/// `agents` connected: a destination in an agent's namespace is delivered
/// to the agent when it is connected, and queued for it otherwise.
pub fn plan_delivery(selected: &Option<String>, agents: &AgentRegistry) -> (r: Delivery)
    ensures
        ({
            let target = match selected {
                Some(d) => net_target(d@),
                None => None,
            };
            match target {
                Some(a) => if agents.agents().contains_key(a) {
                    r matches Delivery::Send(id) && id@ == a
                } else {
                    r matches Delivery::Queue(id) && id@ == a
                },
                None => r matches Delivery::Nothing,
            }
        }),
{
    match selected {
        Some(d) => match delivery_target(d.as_str()) {
            Some(a) => match agents.get(a.as_str()) {
                Some(_) => Delivery::Send(a),
                None => Delivery::Queue(a),
            },
            None => Delivery::Nothing,
        },
        None => Delivery::Nothing,
    }
}

impl MessageResponse {
    /// The answer to a message that was routed as `decision` says: its
    /// selection, if any, and the explanation.
    pub fn routed(message_id: u128, decision: RoutingDecision) -> (r: MessageResponse)
        ensures
            r.message_id == message_id,
            r.status == DispatchStatus::Routed,
            decision.selected matches Some(s) ==> r.routed_to@.len() == 1 && r.routed_to@[0] == s,
            decision.selected is None ==> r.routed_to@.len() == 0,
            r.explanation == Some(decision.explanation),
            r.latency_ms == 0,
    {
        let mut routed_to: Vec<String> = Vec::new();
        match decision.selected {
            Some(s) => routed_to.push(s),
            None => {}
        }
        MessageResponse {
            message_id,
            status: DispatchStatus::Routed,
            routed_to,
            explanation: Some(decision.explanation),
            latency_ms: 0,
        }
    }
}

/// The operations an orchestration request may ask for.
#[derive(Debug, Clone, Copy, PartialEq, Eq, Structural)]
pub enum Intent {
    SendMessage,
    CallTool,
    CompleteChat,
    Unknown,
}

/// The operation that the intent named `s` asks for.
pub open spec fn intent_named(s: Seq<char>) -> Intent {
    if s == "send_message"@ {
        Intent::SendMessage
    } else if s == "call_tool"@ {
        Intent::CallTool
    } else if s == "complete_chat"@ {
        Intent::CompleteChat
    } else {
        Intent::Unknown
    }
}

/// The operation that the intent named `s` asks for.
pub fn parse_intent(s: &str) -> (r: Intent)
    ensures
        r == intent_named(s@),
{
    if same_text(s, "send_message") {
        Intent::SendMessage
    } else if same_text(s, "call_tool") {
        Intent::CallTool
    } else if same_text(s, "complete_chat") {
        Intent::CompleteChat
    } else {
        Intent::Unknown
    }
}

} // verus!

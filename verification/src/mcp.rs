//! Model Context Protocol (MCP): tool endpoints, the index of which
//! endpoint serves which tool, and the tool calls that messages ask for.
//!
//! The HTTP requests to the endpoints are sent by the caller.
use vstd::prelude::*;
use crate::ai::endpoints::AiEndpoint;
use crate::ai::probe::without_trailing_slashes;
use crate::assoc::{assoc_find, assoc_map, assoc_map_facts, assoc_set, distinct_keys};
use crate::json::{json_member, json_string_member, member_text, string_member};
use crate::message::Message;
use crate::text::{concat2, concat3, same_text};

verus! {

/// Model Context Protocol (MCP) tool definition. The input schema is kept
/// as compact JSON text.
#[derive(Debug, Clone)]
pub struct McpTool {
    pub name: String,
    pub description: String,
    pub input_schema: String,
}

/// MCP capability manifest for an endpoint.
#[derive(Debug, Clone)]
pub struct McpManifest {
    pub tools: Vec<McpTool>,
    pub resources: Vec<String>,
    pub prompts: Vec<String>,
}

/// The message type of a tool call.
pub open spec fn tool_call_type() -> Seq<char> {
    "mcp_tool_call"@
}

/// The tool that a message's payload names, `unknown` when it names none.
pub open spec fn named_tool(data: Seq<char>) -> Seq<char> {
    match json_string_member(data, "tool"@) {
        Some(t) => t,
        None => "unknown"@,
    }
}

/// The arguments that a message's payload gives the tool, as JSON text,
/// `null` when it gives none.
pub open spec fn tool_arguments(data: Seq<char>) -> Seq<char> {
    match json_member(data, "arguments"@) {
        Some(a) => a,
        None => "null"@,
    }
}

/// The tool that the payload `data` names.
pub fn tool_name_of(data: &str) -> (r: String)
    ensures
        r@ == named_tool(data@),
{
    match string_member(data, "tool") {
        Some(t) => t,
        None => "unknown".to_string(),
    }
}

/// The tool call that `msg` asks for, as the tool's name and its arguments
/// as JSON text: only a message of type `mcp_tool_call` asks for one.
pub fn tool_call_of(msg: &Message) -> (r: Option<(String, String)>)
    ensures
        msg.msg_type@ != tool_call_type() ==> r is None,
        msg.msg_type@ == tool_call_type() ==> (r matches Some(c)
            && c.0@ == named_tool(msg.data@)
            && c.1@ == tool_arguments(msg.data@)),
{
    if !same_text(msg.msg_type.as_str(), "mcp_tool_call") {
        return None;
    }
    let tool = tool_name_of(msg.data.as_str());
    let args = match member_text(msg.data.as_str(), "arguments") {
        Some(a) => a,
        None => "null".to_string(),
    };
    Some((tool, args))
}

/// A client of one MCP-compatible endpoint.
#[derive(Debug, Clone)]
pub struct McpClient {
    endpoint: AiEndpoint,
}

impl McpClient {
    /// The endpoint the client talks to.
    pub closed spec fn target(&self) -> AiEndpoint {
        self.endpoint
    }

    pub fn new(endpoint: AiEndpoint) -> (r: Self)
        ensures
            r.target() == endpoint,
    {
        McpClient { endpoint }
    }

    /// The endpoint the client talks to.
    pub fn endpoint(&self) -> (r: &AiEndpoint)
        ensures
            *r == self.target(),
    {
        &self.endpoint
    }

    /// Where the endpoint lists its tools.
    pub fn tools_url(&self) -> (r: String)
        ensures
            r@ == without_trailing_slashes(self.target().url@) + "/mcp/tools"@,
    {
        let base = trim_url(self.endpoint.url.as_str());
        concat2(base.as_str(), "/mcp/tools")
    }

    /// Where the endpoint runs the tool `tool_name`.
    pub fn call_url(&self, tool_name: &str) -> (r: String)
        ensures
            r@ == without_trailing_slashes(self.target().url@) + "/mcp/tools/"@ + tool_name@ + "/call"@,
    {
        let base = trim_url(self.endpoint.url.as_str());
        let head = concat3(base.as_str(), "/mcp/tools/", tool_name);
        concat2(head.as_str(), "/call")
    }
}

/// `url` without the `/` characters at its end.
pub fn trim_url(url: &str) -> (r: String)
    ensures
        r@ == without_trailing_slashes(url@),
{
    let cs = crate::text::chars_of(url);
    let mut end: usize = cs.len();
    proof {
        assert(url@.subrange(0, end as int) =~= url@);
    }
    while end > 0 && cs[end - 1] == '/'
        invariant
            end <= cs@.len(),
            cs@ == url@,
            without_trailing_slashes(url@) == without_trailing_slashes(url@.subrange(0, end as int)),
        decreases end,
    {
        proof {
            assert(url@.subrange(0, end as int).drop_last() =~= url@.subrange(0, end - 1));
        }
        end = end - 1;
    }
    String::from_str(url.substring_char(0, end))
}

/// Whether an MCP endpoint's HTTP answer with status `status` carries a
/// result: a 2xx status does; any other is an error of the call.
pub fn call_succeeded(status: u16) -> (ok: bool)
    ensures
        ok == (200 <= status && status < 300),
{
    200 <= status && status < 300
}

/// Registry of MCP clients by endpoint id, with an index of which endpoint
/// serves which tool.
#[derive(Debug)]
pub struct McpRegistry {
    clients: Vec<(String, McpClient)>,
    /// tool name to endpoint id
    tool_index: Vec<(String, String)>,
}

impl McpRegistry {
    /// The clients, by endpoint id.
    pub closed spec fn clients(&self) -> Map<Seq<char>, McpClient> {
        assoc_map(self.clients@)
    }

    /// Which endpoint serves each indexed tool.
    pub closed spec fn tools(&self) -> Map<Seq<char>, Seq<char>> {
        assoc_map(self.tool_index@).map_values(|id: String| id@)
    }

    /// Each endpoint id and each tool name occurs once.
    #[verifier::type_invariant]
    spec fn names_distinct(&self) -> bool {
        distinct_keys(self.clients@) && distinct_keys(self.tool_index@)
    }

    pub fn new() -> (r: Self)
        ensures
            r.clients() == Map::<Seq<char>, McpClient>::empty(),
            r.tools() == Map::<Seq<char>, Seq<char>>::empty(),
    {
        let clients: Vec<(String, McpClient)> = Vec::new();
        let tool_index: Vec<(String, String)> = Vec::new();
        proof {
            assert(clients@.len() == 0 && tool_index@.len() == 0);
        }
        let r = McpRegistry { clients, tool_index };
        proof {
            assert(r.tools() =~= Map::<Seq<char>, Seq<char>>::empty());
        }
        r
    }

    /// Adds a client for `endpoint` under its id, replacing any client there.
    pub fn register(&mut self, endpoint: AiEndpoint)
        ensures
            final(self).clients() == old(self).clients().insert(endpoint.id@, final(self).clients()[endpoint.id@]),
            final(self).clients()[endpoint.id@].target() == endpoint,
            final(self).tools() == old(self).tools(),
    {
        proof {
            use_type_invariant(&*self);
        }
        let id = endpoint.id.clone();
        let client = McpClient::new(endpoint);
        let mut clients: Vec<(String, McpClient)> = Vec::new();
        std::mem::swap(&mut clients, &mut self.clients);
        assoc_set(&mut clients, id, client);
        self.clients = clients;
    }

    /// The client of the endpoint with id `endpoint_id`, if any.
    pub fn get(&self, endpoint_id: &str) -> (r: Option<&McpClient>)
        ensures
            r matches Some(c) ==> self.clients().contains_key(endpoint_id@) && self.clients()[endpoint_id@] == *c,
            r is None ==> !self.clients().contains_key(endpoint_id@),
    {
        proof {
            use_type_invariant(self);
            assoc_map_facts(self.clients@);
        }
        match assoc_find(&self.clients, endpoint_id) {
            Some(i) => {
                proof {
                    assert(assoc_map(self.clients@).contains_key(self.clients@[i as int].0@));
                }
                Some(&self.clients[i].1)
            }
            None => None,
        }
    }

    /// Every registered client once, with its endpoint id, in order of
    /// registration.
    pub fn entries(&self) -> (r: &Vec<(String, McpClient)>)
        ensures
            assoc_map(r@) == self.clients(),
            distinct_keys(r@),
    {
        proof {
            use_type_invariant(self);
        }
        &self.clients
    }

    /// Forgets which endpoint serves which tool.
    pub fn clear_index(&mut self)
        ensures
            final(self).clients() == old(self).clients(),
            final(self).tools() == Map::<Seq<char>, Seq<char>>::empty(),
    {
        proof {
            use_type_invariant(&*self);
        }
        let empty: Vec<(String, String)> = Vec::new();
        proof {
            assert(empty@.len() == 0);
        }
        self.tool_index = empty;
        proof {
            assert(self.tools() =~= Map::<Seq<char>, Seq<char>>::empty());
        }
    }

    /// Records that the endpoint `endpoint_id` serves the tools named in
    /// `tool_names`; a tool already indexed keeps the endpoint it was first
    /// found on.
    pub fn index_tools(&mut self, endpoint_id: &str, tool_names: &Vec<String>)
        ensures
            final(self).clients() == old(self).clients(),
            forall|t: Seq<char>| #[trigger] old(self).tools().contains_key(t) ==> final(self).tools().contains_key(t)
                && final(self).tools()[t] == old(self).tools()[t],
            forall|t: Seq<char>| !old(self).tools().contains_key(t) ==>
                (#[trigger] final(self).tools().contains_key(t) <==> exists|i: int| 0 <= i < tool_names@.len() && tool_names@[i]@ == t),
            forall|t: Seq<char>| !old(self).tools().contains_key(t) && #[trigger] final(self).tools().contains_key(t)
                ==> final(self).tools()[t] == endpoint_id@,
    {
        proof {
            use_type_invariant(&*self);
        }
        let mut index: Vec<(String, String)> = Vec::new();
        std::mem::swap(&mut index, &mut self.tool_index);
        let ghost t0 = assoc_map(index@).map_values(|id: String| id@);
        let mut i: usize = 0;
        while i < tool_names.len()
            invariant
                i <= tool_names@.len(),
                distinct_keys(index@),
                forall|t: Seq<char>| #[trigger] t0.contains_key(t) ==> assoc_map(index@).contains_key(t) && assoc_map(index@)[t]@ == t0[t],
                forall|t: Seq<char>| !t0.contains_key(t) ==>
                    (#[trigger] assoc_map(index@).contains_key(t) <==> exists|j: int| 0 <= j < i && tool_names@[j]@ == t),
                forall|t: Seq<char>| !t0.contains_key(t) && #[trigger] assoc_map(index@).contains_key(t)
                    ==> assoc_map(index@)[t]@ == endpoint_id@,
            decreases tool_names@.len() - i,
        {
            let name = &tool_names[i];
            proof {
                assoc_map_facts(index@);
            }
            match assoc_find(&index, name.as_str()) {
                Some(_) => {
                    proof {
                        assert forall|t: Seq<char>| !t0.contains_key(t) implies
                            (#[trigger] assoc_map(index@).contains_key(t) <==> exists|j: int| 0 <= j < i + 1 && tool_names@[j]@ == t) by {
                            if t == name@ {
                                let k = choose|k: int| 0 <= k < index@.len() && index@[k].0@ == name@;
                                assert(assoc_map(index@).contains_key(index@[k].0@));
                            }
                            if exists|j: int| 0 <= j < i + 1 && tool_names@[j]@ == t {
                                let j = choose|j: int| 0 <= j < i + 1 && tool_names@[j]@ == t;
                                if j == i {
                                    let k = choose|k: int| 0 <= k < index@.len() && index@[k].0@ == name@;
                                    assert(assoc_map(index@).contains_key(index@[k].0@));
                                }
                            }
                        }
                    }
                }
                None => {
                    let ghost before = assoc_map(index@);
                    assoc_set(&mut index, name.clone(), endpoint_id.to_string());
                    proof {
                        assert(!before.contains_key(name@));
                        assert forall|t: Seq<char>| !t0.contains_key(t) implies
                            (#[trigger] assoc_map(index@).contains_key(t) <==> exists|j: int| 0 <= j < i + 1 && tool_names@[j]@ == t) by {
                            if t == name@ {
                                assert(tool_names@[i as int]@ == t);
                            } else if exists|j: int| 0 <= j < i + 1 && tool_names@[j]@ == t {
                                let j = choose|j: int| 0 <= j < i + 1 && tool_names@[j]@ == t;
                                assert(j != i);
                            }
                        }
                    }
                }
            }
            i = i + 1;
        }
        self.tool_index = index;
        proof {
            let t1 = self.tools();
            assert forall|t: Seq<char>| #[trigger] t0.contains_key(t) implies t1.contains_key(t) && t1[t] == t0[t] by {}
            assert forall|t: Seq<char>| !t0.contains_key(t) implies
                (#[trigger] t1.contains_key(t) <==> exists|j: int| 0 <= j < tool_names@.len() && tool_names@[j]@ == t) by {}
        }
    }

    /// The id of the endpoint that serves the tool `tool_name`, if it is
    /// indexed.
    pub fn find_endpoint_for_tool(&self, tool_name: &str) -> (r: Option<&String>)
        ensures
            r matches Some(id) ==> self.tools().contains_key(tool_name@) && self.tools()[tool_name@] == id@,
            r is None ==> !self.tools().contains_key(tool_name@),
    {
        proof {
            use_type_invariant(self);
            assoc_map_facts(self.tool_index@);
        }
        match assoc_find(&self.tool_index, tool_name) {
            Some(i) => {
                proof {
                    assert(assoc_map(self.tool_index@).contains_key(self.tool_index@[i as int].0@));
                }
                Some(&self.tool_index[i].1)
            }
            None => None,
        }
    }

    /// The client that a call of the tool `tool_name` goes to: the client
    /// of the endpoint that serves it, when both are known.
    pub fn client_for_tool(&self, tool_name: &str) -> (r: Option<&McpClient>)
        ensures
            r matches Some(c) ==> self.tools().contains_key(tool_name@)
                && self.clients().contains_key(self.tools()[tool_name@])
                && self.clients()[self.tools()[tool_name@]] == *c,
            r is None ==> !self.tools().contains_key(tool_name@) || !self.clients().contains_key(self.tools()[tool_name@]),
    {
        match self.find_endpoint_for_tool(tool_name) {
            Some(id) => self.get(id.as_str()),
            None => None,
        }
    }
}

} // verus!

//! The gRPC service over a memory graph: its settings, and the calls that
//! read and record sessions, nodes and edges in wire form.

use vstd::prelude::*;
use crate::edges::Edge;
use crate::error::Error;
use crate::graph::{
    MemoryGraph, edge_refs, first_session_index, has_node, has_session, incoming, node_index, outgoing, prompt_added,
    response_added, session_added,
};
use crate::grpc::converters::{
    edge_to_proto, error_to_status, is_edge_wire, is_node_data_wire, is_prompt_wire, is_response_wire, is_session_wire,
    node_to_proto, parse_node_id, parse_session_id, prompt_metadata_of_wire, prompt_node_to_proto, proto_to_prompt_metadata,
    proto_to_response_metadata, proto_to_token_usage, response_metadata_of_wire, response_node_to_proto, session_to_proto,
    token_usage_of_wire, wire_of_node_type,
};
use crate::grpc::proto;
use crate::grpc::proto::{Code, Status};
use crate::ids::{NodeId, SessionId, uuid_parsed, uuid_text};
use crate::nodes::{ConversationSession, Node, PromptMetadata, ResponseMetadata, node_id_of, node_type_of};

verus! {

/// The declaration of `std::time::Instant`, a point on the monotonic clock.
#[verifier::external_type_specification]
#[verifier::external_body]
pub struct ExInstant(std::time::Instant);

/// The current point on the monotonic clock, from `Instant::now`.
///
/// Trusted: nothing is claimed of the value, which comes from the clock.
#[verifier::external_body]
pub(crate) fn monotonic_now() -> std::time::Instant {
    std::time::Instant::now()
}

/// The microseconds since `start` on the monotonic clock, from
/// `Instant::elapsed`, cut to 64 bits as `as u64` cuts.
///
/// Trusted: nothing is claimed of the value, which comes from the clock.
#[verifier::external_body]
pub(crate) fn micros_since(start: &std::time::Instant) -> u64 {
    start.elapsed().as_micros() as u64
}

/// Settings of the gRPC service.
#[derive(Debug)]
pub struct ServiceConfig {
    /// Address the server listens on
    pub host: String,
    /// Port the server listens on
    pub port: u16,
    /// Most concurrent connections
    pub max_connections: usize,
    /// Request timeout in milliseconds
    pub request_timeout_ms: u64,
    /// Whether reflection is served
    pub enable_reflection: bool,
    /// Whether health checks are served
    pub enable_health: bool,
    /// When the server started, for its uptime
    pub start_time: std::time::Instant,
}

impl Default for ServiceConfig {
    /// Listen on every address at the default port, with a thousand
    /// connections, the default timeout, reflection and health checks;
    /// the server starts now.
    fn default() -> (c: Self)
        ensures
            c.host@ == "0.0.0.0"@,
            c.port == crate::grpc::DEFAULT_GRPC_PORT,
            c.max_connections == 1000,
            c.request_timeout_ms == crate::grpc::DEFAULT_REQUEST_TIMEOUT_MS,
            c.enable_reflection,
            c.enable_health,
    {
        ServiceConfig {
            host: String::from_str("0.0.0.0"),
            port: crate::grpc::DEFAULT_GRPC_PORT,
            max_connections: 1000,
            request_timeout_ms: crate::grpc::DEFAULT_REQUEST_TIMEOUT_MS,
            enable_reflection: true,
            enable_health: true,
            start_time: monotonic_now(),
        }
    }
}

/// A status with a code and a message.
fn status(code: Code, message: String) -> (s: Status)
    ensures
        s.code == code,
        s.message == message,
{
    Status { code, message }
}

/// Whether `s` is the status of a text that is no identifier of the given
/// kind (`"session"` or `"node"`).
pub open spec fn is_invalid_id_status(s: Status, kind: Seq<char>, text: Seq<char>) -> bool {
    s.code == Code::InvalidArgument && s.message@ == "Invalid "@ + kind + " ID: "@ + text
}

/// Whether `r` is the wire form of a stored node.
pub open spec fn is_node_wire(r: proto::Node, node: Node) -> bool {
    &&& r.id@ == uuid_text(node_id_of(&node).value)
    &&& r.node_type == wire_of_node_type(node_type_of(&node))
    &&& r.created_at is Some
    &&& is_node_data_wire(r.node_data, node)
}

/// The edges a request for the edges of `id` selects: the incoming ones,
/// the outgoing ones, or both (outgoing first); outgoing unless the
/// direction says otherwise.
pub open spec fn selected_edges(edges: Seq<Edge>, id: NodeId, direction: Option<i32>) -> Seq<Edge> {
    match direction {
        Some(d) => if d == proto::EDGE_DIRECTION_INCOMING {
            incoming(edges, id)
        } else if d == proto::EDGE_DIRECTION_BOTH {
            outgoing(edges, id) + incoming(edges, id)
        } else {
            outgoing(edges, id)
        },
        None => outgoing(edges, id),
    }
}

/// Whether every text names a node.
pub open spec fn all_node_ids(texts: Seq<String>) -> bool {
    forall|i: int| 0 <= i < texts.len() ==> uuid_parsed(#[trigger] texts[i]@) is Some
}

/// The position of the first text that names no node.
pub open spec fn first_bad_id(texts: Seq<String>) -> int {
    choose|i: int| 0 <= i < texts.len() && uuid_parsed(texts[i]@) is None
        && forall|j: int| 0 <= j < i ==> uuid_parsed(#[trigger] texts[j]@) is Some
}

/// The node identifiers the texts name.
pub open spec fn parsed_node_ids(texts: Seq<String>) -> Seq<NodeId> {
    texts.map_values(|t: String| NodeId { value: match uuid_parsed(t@) { Some(v) => v, None => 0 } })
}

/// The identifiers among `ids` of stored nodes, in order.
pub open spec fn stored_ids(nodes: Seq<Node>, ids: Seq<NodeId>) -> Seq<NodeId> {
    ids.filter(|id: NodeId| has_node(nodes, id))
}

/// The prompt metadata a request carries, read from the wire.
pub open spec fn requested_prompt_metadata(m: Option<proto::PromptMetadata>) -> Option<PromptMetadata> {
    match m {
        Some(w) => Some(prompt_metadata_of_wire(w)),
        None => None,
    }
}

/// The response metadata a request carries, read from the wire.
pub open spec fn requested_response_metadata(m: Option<proto::ResponseMetadata>) -> Option<ResponseMetadata> {
    match m {
        Some(w) => Some(response_metadata_of_wire(w)),
        None => None,
    }
}

/// The gRPC service over a memory graph.
pub struct MemoryGraphServiceImpl {
    /// The graph served
    pub graph: MemoryGraph,
    /// Settings
    pub config: ServiceConfig,
}

impl MemoryGraphServiceImpl {
    /// A service over `graph`.
    pub fn new(graph: MemoryGraph, config: ServiceConfig) -> (s: Self)
        ensures
            s.graph == graph,
            s.config == config,
    {
        MemoryGraphServiceImpl { graph, config }
    }

    /// Create a session with the request's metadata.
    pub fn create_session(&mut self, request: proto::CreateSessionRequest) -> (r: Result<proto::Session, Status>)
        ensures
            r matches Ok(s) && exists|x: ConversationSession| #![trigger session_added(old(self).graph.node_seq(),
                old(self).graph.edge_seq(), final(self).graph.node_seq(), final(self).graph.edge_seq(), request.metadata@, x)]
                session_added(old(self).graph.node_seq(), old(self).graph.edge_seq(), final(self).graph.node_seq(),
                final(self).graph.edge_seq(), request.metadata@, x) && is_session_wire(s, x),
            final(self).config == old(self).config,
    {
        let ghost md = request.metadata@;
        let session = if request.metadata.is_empty() {
            self.graph.create_session()
        } else {
            self.graph.create_session_with_metadata(request.metadata)
        };
        let ghost x = session;
        let s = session_to_proto(session);
        assert(session_added(old(self).graph.node_seq(), old(self).graph.edge_seq(), self.graph.node_seq(),
            self.graph.edge_seq(), md, x));
        Ok(s)
    }

    /// The session named by the request.
    pub fn get_session(&self, request: proto::GetSessionRequest) -> (r: Result<proto::Session, Status>)
        ensures
            uuid_parsed(request.session_id@) is None ==> (r matches Err(s) && is_invalid_id_status(s, "session"@,
                request.session_id@)),
            uuid_parsed(request.session_id@) matches Some(v) ==> {
                let t = self.graph.node_seq();
                let sid = SessionId { value: v };
                &&& !has_session(t, sid) ==> (r matches Err(s) && s.code == Code::NotFound
                    && s.message@ == "Session not found: "@ + uuid_text(v))
                &&& has_session(t, sid) ==> (r matches Ok(x) && t[first_session_index(t, sid)] matches Node::Session(y)
                    && is_session_wire(x, y))
            },
    {
        proof { reveal_strlit("session"); reveal_strlit("Invalid "); reveal_strlit(" ID: "); reveal_strlit("Invalid session ID: "); }
        let sid = match parse_session_id(request.session_id.as_str()) {
            Ok(sid) => sid,
            Err(e) => {
                assert("Invalid session ID: "@ =~= "Invalid "@ + "session"@ + " ID: "@);
                return Err(error_to_status(e));
            },
        };
        match self.graph.get_session(sid) {
            Ok(session) => Ok(session_to_proto(session.duplicate())),
            Err(e) => Err(error_to_status(e)),
        }
    }

    /// The node named by the request, in wire form.
    pub fn get_node(&self, request: proto::GetNodeRequest) -> (r: Result<proto::Node, Status>)
        ensures
            uuid_parsed(request.node_id@) is None ==> (r matches Err(s) && is_invalid_id_status(s, "node"@, request.node_id@)),
            uuid_parsed(request.node_id@) matches Some(v) ==> {
                let t = self.graph.node_seq();
                let id = NodeId { value: v };
                &&& !has_node(t, id) ==> (r matches Err(s) && s.code == Code::NotFound
                    && s.message@ == "Node "@ + uuid_text(v) + " not found"@)
                &&& has_node(t, id) ==> (r matches Ok(x) && is_node_wire(x, t[node_index(t, id)]))
            },
    {
        proof { reveal_strlit("node"); reveal_strlit("Invalid "); reveal_strlit(" ID: "); reveal_strlit("Invalid node ID: "); }
        let id = match parse_node_id(request.node_id.as_str()) {
            Ok(id) => id,
            Err(e) => {
                assert("Invalid node ID: "@ =~= "Invalid "@ + "node"@ + " ID: "@);
                return Err(error_to_status(e));
            },
        };
        match self.graph.get_node(id) {
            Some(node) => {
                let copy = node.duplicate();
                Ok(node_to_proto(copy))
            },
            None => {
                let mut m = String::from_str("Node ");
                let text = id.to_string();
                m.append(text.as_str());
                m.append(" not found");
                Err(status(Code::NotFound, m))
            },
        }
    }

    /// The stored nodes among those the request names, in wire form and in
    /// order; nodes that are not stored are left out. A text that names no
    /// node fails the request.
    pub fn batch_get_nodes(&self, request: proto::BatchGetNodesRequest) -> (r: Result<proto::BatchGetNodesResponse, Status>)
        ensures
            !all_node_ids(request.node_ids@) ==> (r matches Err(s) && is_invalid_id_status(s, "node"@,
                request.node_ids@[first_bad_id(request.node_ids@)]@)),
            all_node_ids(request.node_ids@) ==> (r matches Ok(resp) && {
                let t = self.graph.node_seq();
                let found = stored_ids(t, parsed_node_ids(request.node_ids@));
                &&& resp.nodes@.len() == found.len()
                &&& forall|i: int| 0 <= i < found.len() ==> is_node_wire(#[trigger] resp.nodes@[i], t[node_index(t, found[i])])
            }),
    {
        proof { reveal_strlit("node"); reveal_strlit("Invalid "); reveal_strlit(" ID: "); reveal_strlit("Invalid node ID: "); }
        let texts = &request.node_ids;
        let ghost tv = texts@;
        let mut ids: Vec<NodeId> = Vec::new();
        let mut i: usize = 0;
        while i < texts.len()
            invariant
                tv == texts@,
                tv == request.node_ids@,
                i <= tv.len(),
                ids@ == parsed_node_ids(tv).take(i as int),
                forall|j: int| 0 <= j < i ==> uuid_parsed(#[trigger] tv[j]@) is Some,
            decreases tv.len() - i,
        {
            match parse_node_id(texts[i].as_str()) {
                Ok(id) => {
                    ids.push(id);
                    assert(ids@ =~= parsed_node_ids(tv).take(i + 1));
                },
                Err(e) => {
                    proof {
                        reveal_strlit("node");
                        reveal_strlit("Invalid ");
                        reveal_strlit(" ID: ");
                        reveal_strlit("Invalid node ID: ");
                        assert("Invalid node ID: "@ =~= "Invalid "@ + "node"@ + " ID: "@);
                        assert(uuid_parsed(tv[i as int]@) is None);
                        assert(!all_node_ids(tv));
                        assert(0 <= i < tv.len() && uuid_parsed(tv[i as int]@) is None
                            && forall|j: int| 0 <= j < i ==> uuid_parsed(#[trigger] tv[j]@) is Some);
                        let k = first_bad_id(tv);
                        assert(0 <= k < tv.len() && uuid_parsed(tv[k]@) is None);
                        if k < i { assert(uuid_parsed(tv[k]@) is Some); }
                        if k > i { assert(uuid_parsed(tv[i as int]@) is Some); }
                        assert(k == i);
                    }
                    return Err(error_to_status(e));
                },
            }
            i = i + 1;
        }
        assert(parsed_node_ids(tv).take(tv.len() as int) =~= parsed_node_ids(tv));
        let ghost t = self.graph.node_seq();
        let ghost idv = ids@;
        let found = self.graph.get_nodes_batch(&ids);
        let mut nodes: Vec<proto::Node> = Vec::new();
        let mut k: usize = 0;
        proof { reveal(Seq::filter); }
        assert(idv.take(0) =~= Seq::<NodeId>::empty());
        while k < found.len()
            invariant
                t == self.graph.node_seq(),
                idv == ids@,
                found@.len() == idv.len(),
                forall|q: int| 0 <= q < idv.len() ==> {
                    &&& (#[trigger] found@[q]) is Some == has_node(t, idv[q])
                    &&& found@[q] matches Some(n) ==> *n == t[node_index(t, idv[q])]
                },
                k <= found@.len(),
                nodes@.len() == stored_ids(t, idv.take(k as int)).len(),
                forall|q: int| 0 <= q < nodes@.len() ==> is_node_wire(#[trigger] nodes@[q],
                    t[node_index(t, stored_ids(t, idv.take(k as int))[q])]),
            decreases found@.len() - k,
        {
            let ghost before = nodes@;
            let ghost prev = stored_ids(t, idv.take(k as int));
            assert(idv.take(k + 1).drop_last() =~= idv.take(k as int));
            assert(idv.take(k + 1).last() == idv[k as int]);
            proof { reveal(Seq::filter); }
            match found[k] {
                Some(n) => {
                    let copy = n.duplicate();
                    nodes.push(node_to_proto(copy));
                    assert(stored_ids(t, idv.take(k + 1)) =~= prev.push(idv[k as int]));
                    assert forall|q: int| 0 <= q < nodes@.len() implies is_node_wire(#[trigger] nodes@[q],
                        t[node_index(t, stored_ids(t, idv.take(k + 1))[q])]) by {
                        if q < before.len() {
                            assert(nodes@[q] == before[q]);
                        }
                    }
                },
                None => {
                    assert(stored_ids(t, idv.take(k + 1)) =~= prev);
                },
            }
            k = k + 1;
        }
        assert(idv.take(idv.len() as int) =~= idv);
        Ok(proto::BatchGetNodesResponse { nodes })
    }

    /// The edges of the node the request names, in the requested direction
    /// and in wire form.
    pub fn get_edges(&self, request: proto::GetEdgesRequest) -> (r: Result<proto::GetEdgesResponse, Status>)
        ensures
            uuid_parsed(request.node_id@) is None ==> (r matches Err(s) && is_invalid_id_status(s, "node"@, request.node_id@)),
            uuid_parsed(request.node_id@) matches Some(v) ==> (r matches Ok(resp) && {
                let sel = selected_edges(self.graph.edge_seq(), NodeId { value: v }, request.direction);
                &&& resp.edges@.len() == sel.len()
                &&& forall|i: int| 0 <= i < sel.len() ==> is_edge_wire(#[trigger] resp.edges@[i], sel[i])
            }),
    {
        proof { reveal_strlit("node"); reveal_strlit("Invalid "); reveal_strlit(" ID: "); reveal_strlit("Invalid node ID: "); }
        let id = match parse_node_id(request.node_id.as_str()) {
            Ok(id) => id,
            Err(e) => {
                assert("Invalid node ID: "@ =~= "Invalid "@ + "node"@ + " ID: "@);
                return Err(error_to_status(e));
            },
        };
        let ghost es = self.graph.edge_seq();
        let chosen = match request.direction {
            Some(d) => if d == proto::EDGE_DIRECTION_INCOMING {
                self.graph.get_incoming_edges(id)
            } else if d == proto::EDGE_DIRECTION_OUTGOING {
                self.graph.get_outgoing_edges(id)
            } else if d == proto::EDGE_DIRECTION_BOTH {
                let mut outs = self.graph.get_outgoing_edges(id);
                let mut ins = self.graph.get_incoming_edges(id);
                let ghost o = outs@;
                let ghost n = ins@;
                outs.append(&mut ins);
                assert(edge_refs(outs@) =~= edge_refs(o) + edge_refs(n));
                outs
            } else {
                self.graph.get_outgoing_edges(id)
            },
            None => self.graph.get_outgoing_edges(id),
        };
        let ghost sel = selected_edges(es, id, request.direction);
        assert(edge_refs(chosen@) == sel);
        let mut edges: Vec<proto::Edge> = Vec::new();
        let mut k: usize = 0;
        while k < chosen.len()
            invariant
                k <= chosen@.len(),
                edge_refs(chosen@) == sel,
                edges@.len() == k,
                forall|q: int| 0 <= q < k ==> is_edge_wire(#[trigger] edges@[q], sel[q]),
            decreases chosen@.len() - k,
        {
            let copy = chosen[k].duplicate();
            assert(sel[k as int] == *chosen@[k as int]);
            edges.push(edge_to_proto(copy));
            k = k + 1;
        }
        Ok(proto::GetEdgesResponse { edges })
    }

    /// Add a prompt to the session the request names, with the request's
    /// metadata, and answer with the stored prompt in wire form.
    pub fn add_prompt(&mut self, request: proto::AddPromptRequest) -> (r: Result<proto::PromptNode, Status>)
        ensures
            final(self).config == old(self).config,
            uuid_parsed(request.session_id@) is None ==> {
                &&& r matches Err(s) && is_invalid_id_status(s, "session"@, request.session_id@)
                &&& final(self).graph.node_seq() == old(self).graph.node_seq()
                &&& final(self).graph.edge_seq() == old(self).graph.edge_seq()
            },
            uuid_parsed(request.session_id@) matches Some(v) ==> {
                let sid = SessionId { value: v };
                let md = requested_prompt_metadata(request.metadata);
                &&& !has_session(old(self).graph.node_seq(), sid) ==> {
                    &&& r matches Err(s) && s.code == Code::NotFound && s.message@ == "Session not found: "@ + uuid_text(v)
                    &&& final(self).graph.node_seq() == old(self).graph.node_seq()
                    &&& final(self).graph.edge_seq() == old(self).graph.edge_seq()
                }
                &&& has_session(old(self).graph.node_seq(), sid) ==> (r matches Ok(x) && exists|pid: NodeId|
                    #![trigger prompt_added(old(self).graph.node_seq(), old(self).graph.edge_seq(), final(self).graph.node_seq(),
                        final(self).graph.edge_seq(), sid, request.content@, md, pid)]
                    prompt_added(old(self).graph.node_seq(), old(self).graph.edge_seq(), final(self).graph.node_seq(),
                        final(self).graph.edge_seq(), sid, request.content@, md, pid)
                    && (final(self).graph.node_seq()[node_index(final(self).graph.node_seq(), pid)] matches Node::Prompt(p)
                    && is_prompt_wire(x, p)))
            },
    {
        proof { reveal_strlit("session"); reveal_strlit("Invalid "); reveal_strlit(" ID: "); reveal_strlit("Invalid session ID: "); }
        let sid = match parse_session_id(request.session_id.as_str()) {
            Ok(sid) => sid,
            Err(e) => {
                assert("Invalid session ID: "@ =~= "Invalid "@ + "session"@ + " ID: "@);
                return Err(error_to_status(e));
            },
        };
        let ghost content = request.content@;
        let ghost wire_md = request.metadata;
        let metadata = match request.metadata {
            Some(w) => Some(proto_to_prompt_metadata(w)),
            None => None,
        };
        let ghost md = metadata;
        assert(md == requested_prompt_metadata(wire_md));
        let pid = match self.graph.add_prompt(sid, request.content, metadata) {
            Ok(pid) => pid,
            Err(e) => { return Err(error_to_status(e)); },
        };
        let ghost t = self.graph.node_seq();
        assert(prompt_added(old(self).graph.node_seq(), old(self).graph.edge_seq(), t, self.graph.edge_seq(), sid,
            content, md, pid));
        match self.graph.get_node(pid) {
            Some(node) => {
                let copy = node.duplicate();
                match copy {
                    Node::Prompt(p) => {
                        let x = prompt_node_to_proto(p);
                        assert(t[node_index(t, pid)] matches Node::Prompt(stored) && is_prompt_wire(x, stored));
                        Ok(x)
                    },
                    _ => Err(status(Code::Internal, String::from_str("Unexpected node type"))),
                }
            },
            None => Err(status(Code::Internal, String::from_str("Failed to retrieve created prompt"))),
        }
    }

    /// Add a response to the prompt the request names, with the request's
    /// token usage and metadata, and answer with the stored response in
    /// wire form. A request without token usage is refused.
    pub fn add_response(&mut self, request: proto::AddResponseRequest) -> (r: Result<proto::ResponseNode, Status>)
        ensures
            final(self).config == old(self).config,
            uuid_parsed(request.prompt_id@) is None ==> {
                &&& r matches Err(s) && is_invalid_id_status(s, "node"@, request.prompt_id@)
                &&& final(self).graph.node_seq() == old(self).graph.node_seq()
                &&& final(self).graph.edge_seq() == old(self).graph.edge_seq()
            },
            uuid_parsed(request.prompt_id@) is Some && request.token_usage is None ==> {
                &&& r matches Err(s) && s.code == Code::InvalidArgument && s.message@ == "Missing token_usage"@
                &&& final(self).graph.node_seq() == old(self).graph.node_seq()
                &&& final(self).graph.edge_seq() == old(self).graph.edge_seq()
            },
            uuid_parsed(request.prompt_id@) matches Some(v) ==> (request.token_usage matches Some(u) ==> {
                let md = requested_response_metadata(request.metadata);
                r matches Ok(x) && exists|rid: NodeId|
                    #![trigger response_added(old(self).graph.node_seq(), old(self).graph.edge_seq(), final(self).graph.node_seq(),
                        final(self).graph.edge_seq(), NodeId { value: v }, request.content@, token_usage_of_wire(u), md, rid)]
                    response_added(old(self).graph.node_seq(), old(self).graph.edge_seq(), final(self).graph.node_seq(),
                        final(self).graph.edge_seq(), NodeId { value: v }, request.content@, token_usage_of_wire(u), md, rid)
                    && (final(self).graph.node_seq()[node_index(final(self).graph.node_seq(), rid)] matches Node::Response(y)
                    && is_response_wire(x, y))
            }),
    {
        proof { reveal_strlit("node"); reveal_strlit("Invalid "); reveal_strlit(" ID: "); reveal_strlit("Invalid node ID: "); }
        let prompt_id = match parse_node_id(request.prompt_id.as_str()) {
            Ok(id) => id,
            Err(e) => {
                assert("Invalid node ID: "@ =~= "Invalid "@ + "node"@ + " ID: "@);
                return Err(error_to_status(e));
            },
        };
        let usage = match request.token_usage {
            Some(u) => proto_to_token_usage(u),
            None => {
                proof { reveal_strlit("Missing token_usage"); }
                return Err(status(Code::InvalidArgument, String::from_str("Missing token_usage")));
            },
        };
        let ghost content = request.content@;
        let ghost wire_md = request.metadata;
        let metadata = match request.metadata {
            Some(w) => Some(proto_to_response_metadata(w)),
            None => None,
        };
        let ghost md = metadata;
        assert(md == requested_response_metadata(wire_md));
        let rid = self.graph.add_response(prompt_id, request.content, usage, metadata);
        let ghost t = self.graph.node_seq();
        assert(response_added(old(self).graph.node_seq(), old(self).graph.edge_seq(), t, self.graph.edge_seq(), prompt_id,
            content, usage, md, rid));
        match self.graph.get_node(rid) {
            Some(node) => {
                let copy = node.duplicate();
                match copy {
                    Node::Response(y) => Ok(response_node_to_proto(y)),
                    _ => Err(status(Code::Internal, String::from_str("Unexpected node type"))),
                }
            },
            None => Err(status(Code::Internal, String::from_str("Failed to retrieve created response"))),
        }
    }
}

} // verus!
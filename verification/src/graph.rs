//! The memory graph: nodes and edges kept by identifier, with the
//! operations that record conversations (sessions, prompts, responses,
//! tool invocations, agents) and the reads that serve queries.

use vstd::prelude::*;
use crate::edges::{Edge, EdgeType};
use crate::error::Error;
use crate::ids::{AgentId, EdgeId, NodeId, SessionId, TemplateId, Timestamp, uuid_text};
use crate::nodes::{
    AgentNode, ConversationSession, Node, NodeType, PromptMetadata, PromptNode, PromptTemplate,
    ResponseMetadata, ResponseNode, TokenUsage, ToolInvocation, node_id_of, node_type_of,
};
use crate::props::PropertyMap;
use crate::order::reversed;
use crate::storage::StorageStats;
use crate::observatory::metrics::{MemoryGraphMetrics, MetricsTotals, bump, wrapping_sum};
use crate::grpc::service::{micros_since, monotonic_now};

verus! {

// ===== Nodes and edges by identifier =====

/// Whether no two nodes share an identifier.
pub open spec fn node_ids_distinct(s: Seq<Node>) -> bool {
    forall|i: int, j: int| 0 <= i < s.len() && 0 <= j < s.len() && i != j ==>
        node_id_of(&#[trigger] s[i]) != node_id_of(&#[trigger] s[j])
}

/// Whether a node with identifier `id` is among `s`.
pub open spec fn has_node(s: Seq<Node>, id: NodeId) -> bool {
    exists|i: int| 0 <= i < s.len() && node_id_of(&#[trigger] s[i]) == id
}

/// The position of the node with identifier `id`.
pub open spec fn node_index(s: Seq<Node>, id: NodeId) -> int {
    choose|i: int| 0 <= i < s.len() && node_id_of(&#[trigger] s[i]) == id
}

/// The nodes after storing `n`: it replaces the node with its identifier,
/// or comes last.
pub open spec fn with_node(s: Seq<Node>, n: Node) -> Seq<Node> {
    if has_node(s, node_id_of(&n)) {
        s.update(node_index(s, node_id_of(&n)), n)
    } else {
        s.push(n)
    }
}

/// Whether no two edges share an identifier.
pub open spec fn edge_ids_distinct(s: Seq<Edge>) -> bool {
    forall|i: int, j: int| 0 <= i < s.len() && 0 <= j < s.len() && i != j ==>
        (#[trigger] s[i]).id != (#[trigger] s[j]).id
}

/// Whether an edge with identifier `id` is among `s`.
pub open spec fn has_edge(s: Seq<Edge>, id: EdgeId) -> bool {
    exists|i: int| 0 <= i < s.len() && (#[trigger] s[i]).id == id
}

/// The position of the edge with identifier `id`.
pub open spec fn edge_index(s: Seq<Edge>, id: EdgeId) -> int {
    choose|i: int| 0 <= i < s.len() && (#[trigger] s[i]).id == id
}

/// The edges after storing `e`: it replaces the edge with its identifier,
/// or comes last.
pub open spec fn with_edge(s: Seq<Edge>, e: Edge) -> Seq<Edge> {
    if has_edge(s, e.id) {
        s.update(edge_index(s, e.id), e)
    } else {
        s.push(e)
    }
}

/// Whether the node with identifier `pid` is a prompt of session `sid`.
pub open spec fn prompt_in_session(s: Seq<Node>, pid: NodeId, sid: SessionId) -> bool {
    exists|i: int| 0 <= i < s.len() && node_id_of(&#[trigger] s[i]) == pid
        && (s[i] matches Node::Prompt(p) && p.session_id == sid)
}

/// Whether node `n` belongs to session `sid`: the session itself, its
/// prompts, and the responses to its prompts.
pub open spec fn in_session(s: Seq<Node>, n: Node, sid: SessionId) -> bool {
    match n {
        Node::Session(x) => x.id == sid,
        Node::Prompt(p) => p.session_id == sid,
        Node::Response(r) => prompt_in_session(s, r.prompt_id, sid),
        _ => false,
    }
}

/// The nodes of session `sid`, in the order they were stored.
pub open spec fn session_nodes(s: Seq<Node>, sid: SessionId) -> Seq<Node> {
    s.filter(|n: Node| in_session(s, n, sid))
}

/// The edges leaving node `id`, in the order they were stored.
pub open spec fn outgoing(s: Seq<Edge>, id: NodeId) -> Seq<Edge> {
    s.filter(|e: Edge| e.from == id)
}

/// The edges entering node `id`, in the order they were stored.
pub open spec fn incoming(s: Seq<Edge>, id: NodeId) -> Seq<Edge> {
    s.filter(|e: Edge| e.to == id)
}

/// The number of session nodes among `s`.
pub open spec fn session_count(s: Seq<Node>) -> nat {
    s.filter(|n: Node| n is Session).len()
}

/// A graph of conversation nodes and the edges between them, kept in
/// memory; each node and each edge is held once per identifier.
pub struct MemoryGraph {
    nodes: Vec<Node>,
    edges: Vec<Edge>,
}

/// The views of a list of borrowed nodes.
pub open spec fn node_refs(s: Seq<&Node>) -> Seq<Node> {
    s.map_values(|n: &Node| *n)
}

/// The views of a list of borrowed edges.
pub open spec fn edge_refs(s: Seq<&Edge>) -> Seq<Edge> {
    s.map_values(|e: &Edge| *e)
}

impl MemoryGraph {
    #[verifier::type_invariant]
    spec fn inv(&self) -> bool {
        &&& node_ids_distinct(self.nodes@)
        &&& edge_ids_distinct(self.edges@)
    }

    /// The nodes, in the order they were first stored.
    pub closed spec fn node_seq(&self) -> Seq<Node> {
        self.nodes@
    }

    /// The edges, in the order they were first stored.
    pub closed spec fn edge_seq(&self) -> Seq<Edge> {
        self.edges@
    }

    /// Create an empty graph.
    pub fn new() -> (g: Self)
        ensures
            g.node_seq() == Seq::<Node>::empty(),
            g.edge_seq() == Seq::<Edge>::empty(),
    {
        MemoryGraph { nodes: Vec::new(), edges: Vec::new() }
    }

    fn node_position(&self, id: NodeId) -> (r: Option<usize>)
        ensures
            r matches Some(i) ==> i < self.node_seq().len() && node_id_of(&self.node_seq()[i as int]) == id
                && i == node_index(self.node_seq(), id),
            r is None ==> !has_node(self.node_seq(), id),
    {
        proof { use_type_invariant(self); }
        let mut i: usize = 0;
        while i < self.nodes.len()
            invariant
                i <= self.nodes@.len(),
                node_ids_distinct(self.nodes@),
                forall|j: int| 0 <= j < i ==> node_id_of(&#[trigger] self.nodes@[j]) != id,
            decreases self.nodes@.len() - i,
        {
            if self.nodes[i].id() == id {
                let ghost k = node_index(self.nodes@, id);
                assert(node_id_of(&self.nodes@[i as int]) == id);
                return Some(i);
            }
            i = i + 1;
        }
        None
    }

    fn edge_position(&self, id: EdgeId) -> (r: Option<usize>)
        ensures
            r matches Some(i) ==> i < self.edge_seq().len() && self.edge_seq()[i as int].id == id
                && i == edge_index(self.edge_seq(), id),
            r is None ==> !has_edge(self.edge_seq(), id),
    {
        proof { use_type_invariant(self); }
        let mut i: usize = 0;
        while i < self.edges.len()
            invariant
                i <= self.edges@.len(),
                edge_ids_distinct(self.edges@),
                forall|j: int| 0 <= j < i ==> (#[trigger] self.edges@[j]).id != id,
            decreases self.edges@.len() - i,
        {
            if self.edges[i].id == id {
                let ghost k = edge_index(self.edges@, id);
                assert(self.edges@[i as int].id == id);
                return Some(i);
            }
            i = i + 1;
        }
        None
    }

    /// Store a node, replacing the node with the same identifier.
    pub fn store_node(&mut self, node: Node)
        ensures
            final(self).node_seq() == with_node(old(self).node_seq(), node),
            final(self).edge_seq() == old(self).edge_seq(),
    {
        proof { use_type_invariant(&*self); }
        let ghost before = self.nodes@;
        let pos = self.node_position(node.id());
        let mut taken = MemoryGraph::new();
        std::mem::swap(&mut taken, self);
        let MemoryGraph { nodes: mut nodes, edges } = taken;
        let ghost n = node;
        match pos {
            Some(i) => {
                let _old = nodes.remove(i);
                nodes.insert(i, node);
                proof {
                    assert(nodes@ =~= before.update(i as int, n));
                    assert forall|a: int, b: int| 0 <= a < nodes@.len() && 0 <= b < nodes@.len() && a != b implies
                        node_id_of(&#[trigger] nodes@[a]) != node_id_of(&#[trigger] nodes@[b]) by {
                        assert(node_id_of(&nodes@[a]) == node_id_of(&before[a]));
                        assert(node_id_of(&nodes@[b]) == node_id_of(&before[b]));
                    }
                }
            },
            None => {
                nodes.push(node);
                proof {
                    assert forall|a: int, b: int| 0 <= a < nodes@.len() && 0 <= b < nodes@.len() && a != b implies
                        node_id_of(&#[trigger] nodes@[a]) != node_id_of(&#[trigger] nodes@[b]) by {
                        if a < before.len() { assert(nodes@[a] == before[a]); }
                        if b < before.len() { assert(nodes@[b] == before[b]); }
                    }
                }
            },
        }
        *self = MemoryGraph { nodes, edges };
    }

    /// Store an edge, replacing the edge with the same identifier.
    pub fn store_edge(&mut self, edge: Edge)
        ensures
            final(self).edge_seq() == with_edge(old(self).edge_seq(), edge),
            final(self).node_seq() == old(self).node_seq(),
    {
        proof { use_type_invariant(&*self); }
        let ghost before = self.edges@;
        let pos = self.edge_position(edge.id);
        let mut taken = MemoryGraph::new();
        std::mem::swap(&mut taken, self);
        let MemoryGraph { nodes, edges: mut edges } = taken;
        let ghost e = edge;
        match pos {
            Some(i) => {
                let _old = edges.remove(i);
                edges.insert(i, edge);
                proof {
                    assert(edges@ =~= before.update(i as int, e));
                    assert forall|a: int, b: int| 0 <= a < edges@.len() && 0 <= b < edges@.len() && a != b implies
                        (#[trigger] edges@[a]).id != (#[trigger] edges@[b]).id by {
                        assert(edges@[a].id == before[a].id);
                        assert(edges@[b].id == before[b].id);
                    }
                }
            },
            None => {
                edges.push(edge);
                proof {
                    assert forall|a: int, b: int| 0 <= a < edges@.len() && 0 <= b < edges@.len() && a != b implies
                        (#[trigger] edges@[a]).id != (#[trigger] edges@[b]).id by {
                        if a < before.len() { assert(edges@[a] == before[a]); }
                        if b < before.len() { assert(edges@[b] == before[b]); }
                    }
                }
            },
        }
        *self = MemoryGraph { nodes, edges };
    }

    /// The node with identifier `id`.
    pub fn get_node(&self, id: NodeId) -> (r: Option<&Node>)
        ensures
            r is Some == has_node(self.node_seq(), id),
            r matches Some(n) ==> *n == self.node_seq()[node_index(self.node_seq(), id)] && node_id_of(n) == id,
    {
        match self.node_position(id) {
            Some(i) => Some(&self.nodes[i]),
            None => None,
        }
    }

    /// The edge with identifier `id`.
    pub fn get_edge(&self, id: EdgeId) -> (r: Option<&Edge>)
        ensures
            r is Some == has_edge(self.edge_seq(), id),
            r matches Some(e) ==> *e == self.edge_seq()[edge_index(self.edge_seq(), id)] && e.id == id,
    {
        match self.edge_position(id) {
            Some(i) => Some(&self.edges[i]),
            None => None,
        }
    }

    /// Delete the node with identifier `id`, if any; its edges stay.
    pub fn delete_node(&mut self, id: NodeId)
        ensures
            has_node(old(self).node_seq(), id) ==> final(self).node_seq() == old(self).node_seq().remove(node_index(old(self).node_seq(), id)),
            !has_node(old(self).node_seq(), id) ==> final(self).node_seq() == old(self).node_seq(),
            final(self).edge_seq() == old(self).edge_seq(),
    {
        proof { use_type_invariant(&*self); }
        let ghost before = self.nodes@;
        match self.node_position(id) {
            Some(i) => {
                let mut taken = MemoryGraph::new();
                std::mem::swap(&mut taken, self);
                let MemoryGraph { nodes: mut nodes, edges } = taken;
                let _gone = nodes.remove(i);
                proof {
                    assert forall|a: int, b: int| 0 <= a < nodes@.len() && 0 <= b < nodes@.len() && a != b implies
                        node_id_of(&#[trigger] nodes@[a]) != node_id_of(&#[trigger] nodes@[b]) by {
                        let a2 = if a < i { a } else { a + 1 };
                        let b2 = if b < i { b } else { b + 1 };
                        assert(nodes@[a] == before[a2] && nodes@[b] == before[b2]);
                    }
                }
                *self = MemoryGraph { nodes, edges };
            },
            None => {},
        }
    }

    /// Delete the edge with identifier `id`, if any.
    pub fn delete_edge(&mut self, id: EdgeId)
        ensures
            has_edge(old(self).edge_seq(), id) ==> final(self).edge_seq() == old(self).edge_seq().remove(edge_index(old(self).edge_seq(), id)),
            !has_edge(old(self).edge_seq(), id) ==> final(self).edge_seq() == old(self).edge_seq(),
            final(self).node_seq() == old(self).node_seq(),
    {
        proof { use_type_invariant(&*self); }
        let ghost before = self.edges@;
        match self.edge_position(id) {
            Some(i) => {
                let mut taken = MemoryGraph::new();
                std::mem::swap(&mut taken, self);
                let MemoryGraph { nodes, edges: mut edges } = taken;
                let _gone = edges.remove(i);
                proof {
                    assert forall|a: int, b: int| 0 <= a < edges@.len() && 0 <= b < edges@.len() && a != b implies
                        (#[trigger] edges@[a]).id != (#[trigger] edges@[b]).id by {
                        let a2 = if a < i { a } else { a + 1 };
                        let b2 = if b < i { b } else { b + 1 };
                        assert(edges@[a] == before[a2] && edges@[b] == before[b2]);
                    }
                }
                *self = MemoryGraph { nodes, edges };
            },
            None => {},
        }
    }

    /// Whether the node with identifier `pid` is a prompt of session `sid`.
    fn is_prompt_of(&self, pid: NodeId, sid: SessionId) -> (r: bool)
        ensures
            r == prompt_in_session(self.node_seq(), pid, sid),
    {
        proof { use_type_invariant(self); }
        match self.node_position(pid) {
            Some(i) => match &self.nodes[i] {
                Node::Prompt(p) => p.session_id == sid,
                _ => false,
            },
            None => false,
        }
    }

    /// The nodes of a session: the session node, its prompts and the
    /// responses to them, in the order they were stored.
    pub fn get_session_nodes(&self, session_id: SessionId) -> (r: Vec<&Node>)
        ensures
            node_refs(r@) == session_nodes(self.node_seq(), session_id),
    {
        let ghost s = self.nodes@;
        let ghost pred = |n: Node| in_session(s, n, session_id);
        let mut out: Vec<&Node> = Vec::new();
        let mut i: usize = 0;
        proof { reveal(Seq::filter); }
        assert(s.take(0) =~= Seq::<Node>::empty());
        while i < self.nodes.len()
            invariant
                i <= self.nodes@.len(),
                s == self.node_seq(),
                pred == (|n: Node| in_session(s, n, session_id)),
                node_refs(out@) == s.take(i as int).filter(pred),
            decreases self.nodes@.len() - i,
        {
            let n = &self.nodes[i];
            let keep = match n {
                Node::Session(x) => x.id == session_id,
                Node::Prompt(p) => p.session_id == session_id,
                Node::Response(resp) => self.is_prompt_of(resp.prompt_id, session_id),
                _ => false,
            };
            let ghost before = out@;
            proof {
                assert(s.take(i + 1).drop_last() =~= s.take(i as int));
                assert(s.take(i + 1).last() == *n);
                reveal(Seq::filter);
                assert(keep == pred(*n));
            }
            if keep {
                out.push(n);
                proof { assert(node_refs(out@) =~= node_refs(before).push(*n)); }
            }
            i = i + 1;
        }
        assert(s.take(self.nodes@.len() as int) =~= s);
        out
    }

    fn select_edges(&self, id: NodeId, leaving: bool) -> (r: Vec<&Edge>)
        ensures
            leaving ==> edge_refs(r@) == outgoing(self.edge_seq(), id),
            !leaving ==> edge_refs(r@) == incoming(self.edge_seq(), id),
    {
        let ghost s = self.edges@;
        let ghost pred = |e: Edge| if leaving { e.from == id } else { e.to == id };
        let mut out: Vec<&Edge> = Vec::new();
        let mut i: usize = 0;
        proof { reveal(Seq::filter); }
        assert(s.take(0) =~= Seq::<Edge>::empty());
        while i < self.edges.len()
            invariant
                i <= self.edges@.len(),
                s == self.edge_seq(),
                pred == (|e: Edge| if leaving { e.from == id } else { e.to == id }),
                edge_refs(out@) == s.take(i as int).filter(pred),
            decreases self.edges@.len() - i,
        {
            let e = &self.edges[i];
            let keep = if leaving { e.from == id } else { e.to == id };
            let ghost before = out@;
            proof {
                assert(s.take(i + 1).drop_last() =~= s.take(i as int));
                assert(s.take(i + 1).last() == *e);
                reveal(Seq::filter);
            }
            if keep {
                out.push(e);
                proof { assert(edge_refs(out@) =~= edge_refs(before).push(*e)); }
            }
            i = i + 1;
        }
        assert(s.take(self.edges@.len() as int) =~= s);
        proof {
            if leaving {
                assert(pred =~= (|e: Edge| e.from == id));
            } else {
                assert(pred =~= (|e: Edge| e.to == id));
            }
        }
        out
    }

    /// The edges leaving a node, in the order they were stored.
    pub fn get_outgoing_edges(&self, node_id: NodeId) -> (r: Vec<&Edge>)
        ensures
            edge_refs(r@) == outgoing(self.edge_seq(), node_id),
    {
        self.select_edges(node_id, true)
    }

    /// The edges entering a node, in the order they were stored.
    pub fn get_incoming_edges(&self, node_id: NodeId) -> (r: Vec<&Edge>)
        ensures
            edge_refs(r@) == incoming(self.edge_seq(), node_id),
    {
        self.select_edges(node_id, false)
    }
}

/// Whether `n` is the node of session `sid`.
pub open spec fn is_session_node(n: Node, sid: SessionId) -> bool {
    n matches Node::Session(x) && x.id == sid
}

/// Whether a node of session `sid` is among `s`.
pub open spec fn has_session(s: Seq<Node>, sid: SessionId) -> bool {
    exists|i: int| 0 <= i < s.len() && is_session_node(#[trigger] s[i], sid)
}

/// Whether position `i` holds the first node of session `sid`.
pub open spec fn is_first_session(s: Seq<Node>, sid: SessionId, i: int) -> bool {
    &&& 0 <= i < s.len()
    &&& is_session_node(s[i], sid)
    &&& forall|j: int| 0 <= j < i ==> !is_session_node(#[trigger] s[j], sid)
}

/// The position of the first node of session `sid`.
pub open spec fn first_session_index(s: Seq<Node>, sid: SessionId) -> int {
    choose|i: int| is_first_session(s, sid, i)
}

/// The first position of a session node is unique.
proof fn lemma_first_session_unique(s: Seq<Node>, sid: SessionId, i: int)
    requires
        is_first_session(s, sid, i),
    ensures
        first_session_index(s, sid) == i,
{
    let k = first_session_index(s, sid);
    assert(is_first_session(s, sid, k));
    if k < i {
        assert(!is_session_node(s[k], sid));
    } else if k > i {
        assert(!is_session_node(s[i], sid));
    }
}

/// In a list of distinct identifiers, a node's position is its index.
proof fn lemma_node_index_unique(s: Seq<Node>, i: int)
    requires
        node_ids_distinct(s),
        0 <= i < s.len(),
    ensures
        has_node(s, node_id_of(&s[i])),
        node_index(s, node_id_of(&s[i])) == i,
{
    let id = node_id_of(&s[i]);
    assert(node_id_of(&s[i]) == id);
    let k = node_index(s, id);
    if k != i {
        assert(node_id_of(&s[k]) == id);
    }
}

/// Whether `e` is a fresh edge of a type from `from` to `to`, with no
/// properties.
pub open spec fn is_link(e: Edge, from: NodeId, to: NodeId, edge_type: EdgeType) -> bool {
    &&& e.from == from
    &&& e.to == to
    &&& e.edge_type == edge_type
    &&& e.properties@ == Map::<Seq<char>, Seq<char>>::empty()
}

/// Whether prompt metadata has the default values.
pub open spec fn is_default_prompt_metadata(m: PromptMetadata) -> bool {
    &&& m.model@ == Seq::<char>::empty()
    &&& m.temperature_bits == 0x3F33_3333
    &&& m.max_tokens is None
    &&& m.tools_available@.len() == 0
    &&& m.custom@ == Map::<Seq<char>, Seq<char>>::empty()
}

/// Whether response metadata has the default values.
pub open spec fn is_default_response_metadata(m: ResponseMetadata) -> bool {
    &&& m.model@ == Seq::<char>::empty()
    &&& m.finish_reason@ == Seq::<char>::empty()
    &&& m.latency_ms == 0
    &&& m.custom@ == Map::<Seq<char>, Seq<char>>::empty()
}

/// Whether adding a prompt of session `sid` with `content` took the graph
/// from nodes `s` and edges `es` to `t` and `et`, storing it under `pid`:
/// the prompt carries the given metadata, or the default one, and a
/// PART_OF edge leads from it to the session's node.
pub open spec fn prompt_added(s: Seq<Node>, es: Seq<Edge>, t: Seq<Node>, et: Seq<Edge>, sid: SessionId,
    content: Seq<char>, metadata: Option<PromptMetadata>, pid: NodeId) -> bool
{
    let n = t[node_index(t, pid)];
    &&& has_node(t, pid)
    &&& t == with_node(s, n)
    &&& n matches Node::Prompt(p) && p.id == pid && p.session_id == sid && p.content@ == content
        && p.template_id is None && p.variables@ == Map::<Seq<char>, Seq<char>>::empty()
        && (match metadata { Some(m) => p.metadata == m, None => is_default_prompt_metadata(p.metadata) })
    &&& has_session(t, sid) ==> exists|e: Edge| #![trigger with_edge(es, e)]
            et == with_edge(es, e) && is_link(e, pid, node_id_of(&t[first_session_index(t, sid)]), EdgeType::PartOf)
    &&& !has_session(t, sid) ==> et == es
}

/// Whether adding a response to prompt `prompt_id` with `content` and
/// `usage` took the graph from nodes `s` and edges `es` to `t` and `et`,
/// storing it under `rid`: the response carries the given metadata, or the
/// default one, and a RESPONDS_TO edge leads from it to the prompt.
pub open spec fn response_added(s: Seq<Node>, es: Seq<Edge>, t: Seq<Node>, et: Seq<Edge>, prompt_id: NodeId,
    content: Seq<char>, usage: TokenUsage, metadata: Option<ResponseMetadata>, rid: NodeId) -> bool
{
    let n = t[node_index(t, rid)];
    &&& has_node(t, rid)
    &&& t == with_node(s, n)
    &&& n matches Node::Response(x) && x.id == rid && x.prompt_id == prompt_id && x.content@ == content
        && x.usage == usage
        && (match metadata { Some(m) => x.metadata == m, None => is_default_response_metadata(x.metadata) })
    &&& exists|e: Edge| #![trigger with_edge(es, e)] et == with_edge(es, e) && is_link(e, rid, prompt_id, EdgeType::RespondsTo)
}

/// Whether creating session `r` took the graph from nodes `s` and edges
/// `es` to `t` and `et`: a new active session, with the given metadata and
/// no tags, is stored under its node identifier, and no edge changes.
pub open spec fn session_added(s: Seq<Node>, es: Seq<Edge>, t: Seq<Node>, et: Seq<Edge>,
    metadata: Map<Seq<char>, Seq<char>>, r: ConversationSession) -> bool
{
    &&& has_node(t, r.node_id)
    &&& t == with_node(s, t[node_index(t, r.node_id)])
    &&& t[node_index(t, r.node_id)] matches Node::Session(x)
        && x.id == r.id && x.node_id == r.node_id && x.created_at == r.created_at && x.updated_at == r.updated_at
        && x.metadata@ == r.metadata@ && x.is_active == r.is_active && x.tags.deep_view() == r.tags.deep_view()
    &&& r.metadata@ == metadata
    &&& r.tags@.len() == 0
    &&& r.is_active
    &&& et == es
}

impl MemoryGraph {
    /// Counts of the nodes, edges and sessions held; everything is in
    /// memory, so no bytes are stored.
    pub fn stats(&self) -> (r: StorageStats)
        ensures
            r.node_count == self.node_seq().len(),
            r.edge_count == self.edge_seq().len(),
            r.storage_bytes == 0,
            r.session_count == session_count(self.node_seq()),
    {
        let ghost s = self.nodes@;
        let ghost pred = |n: Node| n is Session;
        let mut sessions: u64 = 0;
        let mut i: usize = 0;
        proof { reveal(Seq::filter); }
        assert(s.take(0) =~= Seq::<Node>::empty());
        while i < self.nodes.len()
            invariant
                i <= self.nodes@.len(),
                s == self.node_seq(),
                pred == (|n: Node| n is Session),
                sessions == s.take(i as int).filter(pred).len(),
            decreases self.nodes@.len() - i,
        {
            proof {
                assert(s.take(i + 1).drop_last() =~= s.take(i as int));
                reveal(Seq::filter);
                s.take(i as int).lemma_filter_len(pred);
            }
            match &self.nodes[i] {
                Node::Session(_) => { sessions = sessions + 1; },
                _ => {},
            }
            i = i + 1;
        }
        assert(s.take(self.nodes@.len() as int) =~= s);
        StorageStats {
            node_count: self.nodes.len() as u64,
            edge_count: self.edges.len() as u64,
            storage_bytes: 0,
            session_count: sessions,
        }
    }

    /// Position of the first node of session `sid`.
    fn first_session_position(&self, sid: SessionId) -> (r: Option<usize>)
        ensures
            r matches Some(i) ==> is_first_session(self.node_seq(), sid, i as int) && i == first_session_index(self.node_seq(), sid),
            r is None ==> !has_session(self.node_seq(), sid),
    {
        let mut i: usize = 0;
        while i < self.nodes.len()
            invariant
                i <= self.nodes@.len(),
                forall|j: int| 0 <= j < i ==> !is_session_node(#[trigger] self.nodes@[j], sid),
            decreases self.nodes@.len() - i,
        {
            let found = match &self.nodes[i] {
                Node::Session(x) => x.id == sid,
                _ => false,
            };
            if found {
                proof { lemma_first_session_unique(self.nodes@, sid, i as int); }
                return Some(i);
            }
            i = i + 1;
        }
        None
    }

    /// The session with identifier `session_id`.
    pub fn get_session(&self, session_id: SessionId) -> (r: Result<&ConversationSession, Error>)
        ensures
            r is Ok == has_session(self.node_seq(), session_id),
            r matches Ok(x) ==> self.node_seq()[first_session_index(self.node_seq(), session_id)] == Node::Session(*x),
            r matches Err(e) ==> e matches Error::SessionNotFound(m) && m@ == uuid_text(session_id.value),
    {
        match self.first_session_position(session_id) {
            Some(i) => match &self.nodes[i] {
                Node::Session(x) => Ok(x),
                _ => Err(Error::SessionNotFound(session_id.to_string())),
            },
            None => Err(Error::SessionNotFound(session_id.to_string())),
        }
    }

    /// Store a fresh edge between two nodes.
    fn link(&mut self, from: NodeId, to: NodeId, edge_type: EdgeType)
        ensures
            final(self).node_seq() == old(self).node_seq(),
            exists|e: Edge| #![trigger with_edge(old(self).edge_seq(), e)]
                final(self).edge_seq() == with_edge(old(self).edge_seq(), e) && is_link(e, from, to, edge_type),
    {
        let edge = Edge::new(from, to, edge_type);
        let ghost e = edge;
        self.store_edge(edge);
        assert(self.edge_seq() == with_edge(old(self).edge_seq(), e) && is_link(e, from, to, edge_type));
    }

    /// Create a new session and store its node; the session is returned.
    pub fn create_session(&mut self) -> (r: ConversationSession)
        ensures
            session_added(old(self).node_seq(), old(self).edge_seq(), final(self).node_seq(), final(self).edge_seq(),
                Map::<Seq<char>, Seq<char>>::empty(), r),
    {
        let session = ConversationSession::new();
        let copy = session.duplicate();
        let ghost n = Node::Session(session);
        self.store_node(Node::Session(session));
        proof {
            use_type_invariant(&*self);
            lemma_stored(old(self).node_seq(), self.node_seq(), n);
            assert(copy.tags.deep_view().len() == copy.tags@.len());
            assert(session.tags.deep_view().len() == session.tags@.len());
        }
        copy
    }

    /// Create a new session with the given metadata.
    pub fn create_session_with_metadata(&mut self, metadata: PropertyMap) -> (r: ConversationSession)
        ensures
            session_added(old(self).node_seq(), old(self).edge_seq(), final(self).node_seq(), final(self).edge_seq(),
                metadata@, r),
    {
        let session = ConversationSession::with_metadata(metadata);
        let copy = session.duplicate();
        let ghost n = Node::Session(session);
        self.store_node(Node::Session(session));
        proof {
            use_type_invariant(&*self);
            lemma_stored(old(self).node_seq(), self.node_seq(), n);
            assert(copy.tags.deep_view().len() == copy.tags@.len());
            assert(session.tags.deep_view().len() == session.tags@.len());
        }
        copy
    }
}

impl MemoryGraph {
    /// Add a prompt to a session: the session must exist. The prompt gets
    /// a fresh identifier and the default metadata when none is given, and
    /// is linked to the session's node by a PART_OF edge.
    pub fn add_prompt(&mut self, session_id: SessionId, content: String, metadata: Option<PromptMetadata>) -> (r: Result<NodeId, Error>)
        ensures
            r is Err <==> !has_session(old(self).node_seq(), session_id),
            r matches Err(e) ==> {
                &&& e matches Error::SessionNotFound(m) && m@ == uuid_text(session_id.value)
                &&& final(self).node_seq() == old(self).node_seq()
                &&& final(self).edge_seq() == old(self).edge_seq()
            },
            r matches Ok(pid) ==> prompt_added(old(self).node_seq(), old(self).edge_seq(), final(self).node_seq(),
                final(self).edge_seq(), session_id, content@, metadata, pid),
    {
        match self.get_session(session_id) {
            Err(e) => { return Err(e); },
            Ok(_) => {},
        }
        let metadata = match metadata {
            Some(m) => m,
            None => PromptMetadata::default(),
        };
        let prompt = PromptNode {
            id: NodeId::new(),
            session_id,
            content,
            metadata,
            timestamp: Timestamp::now(),
            template_id: None,
            variables: PropertyMap::new(),
        };
        let pid = prompt.id;
        let ghost n = Node::Prompt(prompt);
        self.store_node(Node::Prompt(prompt));
        proof { use_type_invariant(&*self); lemma_stored(old(self).node_seq(), self.node_seq(), n); }
        match self.first_session_position(session_id) {
            Some(i) => {
                let target = self.nodes[i].id();
                self.link(pid, target, EdgeType::PartOf);
            },
            None => {},
        }
        Ok(pid)
    }

    /// Add a response to a prompt: it gets a fresh identifier and the
    /// default metadata when none is given, and is linked to the prompt by
    /// a RESPONDS_TO edge.
    pub fn add_response(&mut self, prompt_id: NodeId, content: String, token_usage: TokenUsage, metadata: Option<ResponseMetadata>) -> (rid: NodeId)
        ensures
            response_added(old(self).node_seq(), old(self).edge_seq(), final(self).node_seq(), final(self).edge_seq(),
                prompt_id, content@, token_usage, metadata, rid),
    {
        let metadata = match metadata {
            Some(m) => m,
            None => ResponseMetadata::default(),
        };
        let response = ResponseNode {
            id: NodeId::new(),
            prompt_id,
            timestamp: Timestamp::now(),
            content,
            usage: token_usage,
            metadata,
        };
        let rid = response.id;
        let ghost n = Node::Response(response);
        self.store_node(Node::Response(response));
        proof { use_type_invariant(&*self); lemma_stored(old(self).node_seq(), self.node_seq(), n); }
        let ghost mid = self.node_seq();
        self.link(rid, prompt_id, EdgeType::RespondsTo);
        rid
    }

    /// Add a tool invocation, linked from its response by an INVOKES edge.
    pub fn add_tool_invocation(&mut self, tool: ToolInvocation) -> (tid: NodeId)
        ensures
            tid == tool.id,
            final(self).node_seq() == with_node(old(self).node_seq(), Node::ToolInvocation(tool)),
            exists|e: Edge| #![trigger with_edge(old(self).edge_seq(), e)]
                final(self).edge_seq() == with_edge(old(self).edge_seq(), e) && is_link(e, tool.response_id, tool.id, EdgeType::Invokes),
    {
        let tid = tool.id;
        let response_id = tool.response_id;
        self.store_node(Node::ToolInvocation(tool));
        self.link(response_id, tid, EdgeType::Invokes);
        tid
    }

    /// Store a tool invocation again, with its results.
    pub fn update_tool_invocation(&mut self, tool: ToolInvocation)
        ensures
            final(self).node_seq() == with_node(old(self).node_seq(), Node::ToolInvocation(tool)),
            final(self).edge_seq() == old(self).edge_seq(),
    {
        self.store_node(Node::ToolInvocation(tool));
    }

    /// Add an agent.
    pub fn add_agent(&mut self, agent: AgentNode) -> (id: AgentId)
        ensures
            id == agent.id,
            final(self).node_seq() == with_node(old(self).node_seq(), Node::Agent(agent)),
            final(self).edge_seq() == old(self).edge_seq(),
    {
        let id = agent.id;
        self.store_node(Node::Agent(agent));
        id
    }

    /// Store an agent again, after a change.
    pub fn update_agent(&mut self, agent: AgentNode)
        ensures
            final(self).node_seq() == with_node(old(self).node_seq(), Node::Agent(agent)),
            final(self).edge_seq() == old(self).edge_seq(),
    {
        self.store_node(Node::Agent(agent));
    }

    /// Record that an agent handles a prompt (a HANDLED_BY edge).
    pub fn assign_agent_to_prompt(&mut self, prompt_id: NodeId, agent_node_id: NodeId)
        ensures
            final(self).node_seq() == old(self).node_seq(),
            exists|e: Edge| #![trigger with_edge(old(self).edge_seq(), e)]
                final(self).edge_seq() == with_edge(old(self).edge_seq(), e) && is_link(e, prompt_id, agent_node_id, EdgeType::HandledBy),
    {
        self.link(prompt_id, agent_node_id, EdgeType::HandledBy);
    }

    /// Record a handoff from a response to an agent (a TRANSFERS_TO edge).
    pub fn transfer_to_agent(&mut self, from_response: NodeId, to_agent_node_id: NodeId)
        ensures
            final(self).node_seq() == old(self).node_seq(),
            exists|e: Edge| #![trigger with_edge(old(self).edge_seq(), e)]
                final(self).edge_seq() == with_edge(old(self).edge_seq(), e) && is_link(e, from_response, to_agent_node_id, EdgeType::TransfersTo),
    {
        self.link(from_response, to_agent_node_id, EdgeType::TransfersTo);
    }

    /// Add an edge of a type between two nodes.
    pub fn add_edge(&mut self, from: NodeId, to: NodeId, edge_type: EdgeType)
        ensures
            final(self).node_seq() == old(self).node_seq(),
            exists|e: Edge| #![trigger with_edge(old(self).edge_seq(), e)]
                final(self).edge_seq() == with_edge(old(self).edge_seq(), e) && is_link(e, from, to, edge_type),
    {
        self.link(from, to, edge_type);
    }
}

// ===== Writes with metrics =====

/// The counters after one timed write that created a node and took
/// `latency_us` microseconds.
pub open spec fn node_write_counted(o: MetricsTotals, latency_us: u64) -> MetricsTotals {
    MetricsTotals {
        nodes_created: bump(o.nodes_created),
        total_write_latency_us: wrapping_sum(o.total_write_latency_us, latency_us),
        write_count: bump(o.write_count),
        ..o
    }
}

/// The counters after a timed write that stored a prompt.
pub open spec fn prompt_write_counted(o: MetricsTotals, latency_us: u64) -> MetricsTotals {
    MetricsTotals { prompts_submitted: bump(o.prompts_submitted), ..node_write_counted(o, latency_us) }
}

/// The counters after a timed write that stored a response.
pub open spec fn response_write_counted(o: MetricsTotals, latency_us: u64) -> MetricsTotals {
    MetricsTotals { responses_generated: bump(o.responses_generated), ..node_write_counted(o, latency_us) }
}

impl MemoryGraph {
    /// `create_session`, counted in `metrics`: one node created and one
    /// timed write.
    pub fn create_session_recorded(&mut self, metrics: &mut MemoryGraphMetrics) -> (r: ConversationSession)
        ensures
            session_added(old(self).node_seq(), old(self).edge_seq(), final(self).node_seq(), final(self).edge_seq(),
                Map::<Seq<char>, Seq<char>>::empty(), r),
            exists|latency_us: u64| final(metrics)@ == #[trigger] node_write_counted(old(metrics)@, latency_us),
    {
        let start = monotonic_now();
        let session = self.create_session();
        let latency_us = micros_since(&start);
        metrics.record_node_created();
        metrics.record_write_latency_us(latency_us);
        assert(metrics@ == node_write_counted(old(metrics)@, latency_us));
        session
    }

    /// `add_prompt`, counted in `metrics` when it succeeds: one node
    /// created, one prompt submitted and one timed write. A refused prompt
    /// leaves the counters alone.
    pub fn add_prompt_recorded(&mut self, metrics: &mut MemoryGraphMetrics, session_id: SessionId, content: String,
        metadata: Option<PromptMetadata>) -> (r: Result<NodeId, Error>)
        ensures
            r is Err <==> !has_session(old(self).node_seq(), session_id),
            r matches Err(e) ==> {
                &&& e matches Error::SessionNotFound(m) && m@ == uuid_text(session_id.value)
                &&& final(self).node_seq() == old(self).node_seq()
                &&& final(self).edge_seq() == old(self).edge_seq()
                &&& final(metrics)@ == old(metrics)@
            },
            r matches Ok(pid) ==> prompt_added(old(self).node_seq(), old(self).edge_seq(), final(self).node_seq(),
                final(self).edge_seq(), session_id, content@, metadata, pid),
            r is Ok ==> exists|latency_us: u64| final(metrics)@ == #[trigger] prompt_write_counted(old(metrics)@, latency_us),
    {
        let start = monotonic_now();
        let r = self.add_prompt(session_id, content, metadata);
        if r.is_ok() {
            let latency_us = micros_since(&start);
            metrics.record_node_created();
            metrics.record_prompt_submitted();
            metrics.record_write_latency_us(latency_us);
            assert(metrics@ == prompt_write_counted(old(metrics)@, latency_us));
        }
        r
    }

    /// `add_response`, counted in `metrics`: one node created, one
    /// response generated and one timed write.
    pub fn add_response_recorded(&mut self, metrics: &mut MemoryGraphMetrics, prompt_id: NodeId, content: String,
        token_usage: TokenUsage, metadata: Option<ResponseMetadata>) -> (rid: NodeId)
        ensures
            response_added(old(self).node_seq(), old(self).edge_seq(), final(self).node_seq(), final(self).edge_seq(),
                prompt_id, content@, token_usage, metadata, rid),
            exists|latency_us: u64| final(metrics)@ == #[trigger] response_write_counted(old(metrics)@, latency_us),
    {
        let start = monotonic_now();
        let rid = self.add_response(prompt_id, content, token_usage, metadata);
        let latency_us = micros_since(&start);
        metrics.record_node_created();
        metrics.record_response_generated();
        metrics.record_write_latency_us(latency_us);
        assert(metrics@ == response_write_counted(old(metrics)@, latency_us));
        rid
    }
}

// ===== Batches =====

/// The nodes after storing each of `ns` in turn.
pub open spec fn with_nodes(s: Seq<Node>, ns: Seq<Node>) -> Seq<Node>
    decreases ns.len(),
{
    if ns.len() == 0 { s } else { with_node(with_nodes(s, ns.drop_last()), ns.last()) }
}

/// The edges after storing each of `es` in turn.
pub open spec fn with_edges(s: Seq<Edge>, es: Seq<Edge>) -> Seq<Edge>
    decreases es.len(),
{
    if es.len() == 0 { s } else { with_edge(with_edges(s, es.drop_last()), es.last()) }
}

/// The nodes after deleting the node with identifier `id`, if any.
pub open spec fn without_node(s: Seq<Node>, id: NodeId) -> Seq<Node> {
    if has_node(s, id) { s.remove(node_index(s, id)) } else { s }
}

/// The nodes after deleting each of `ids` in turn.
pub open spec fn without_nodes(s: Seq<Node>, ids: Seq<NodeId>) -> Seq<Node>
    decreases ids.len(),
{
    if ids.len() == 0 { s } else { without_node(without_nodes(s, ids.drop_last()), ids.last()) }
}

impl MemoryGraph {
    /// Store each node in turn; their identifiers come back in order.
    pub fn store_nodes_batch(&mut self, nodes: Vec<Node>) -> (ids: Vec<NodeId>)
        ensures
            final(self).node_seq() == with_nodes(old(self).node_seq(), nodes@),
            final(self).edge_seq() == old(self).edge_seq(),
            ids@ == nodes@.map_values(|n: Node| node_id_of(&n)),
    {
        let ghost input = nodes@;
        let n = nodes.len();
        let mut queue = reversed(nodes);
        let mut ids: Vec<NodeId> = Vec::new();
        let mut i: usize = 0;
        assert(input.take(0) =~= Seq::<Node>::empty());
        while i < n
            invariant
                n == input.len(),
                i <= n,
                queue@.len() == n - i,
                forall|j: int| 0 <= j < queue@.len() ==> queue@[j] == input[n - 1 - j],
                self.node_seq() == with_nodes(old(self).node_seq(), input.take(i as int)),
                self.edge_seq() == old(self).edge_seq(),
                ids@ == input.take(i as int).map_values(|x: Node| node_id_of(&x)),
            decreases n - i,
        {
            let node = queue.pop().unwrap();
            assert(node == input[i as int]);
            ids.push(node.id());
            self.store_node(node);
            assert(input.take(i + 1).drop_last() =~= input.take(i as int));
            assert(ids@ =~= input.take(i + 1).map_values(|x: Node| node_id_of(&x)));
            i = i + 1;
        }
        assert(input.take(n as int) =~= input);
        ids
    }

    /// Store each edge in turn.
    pub fn store_edges_batch(&mut self, edges: Vec<Edge>)
        ensures
            final(self).edge_seq() == with_edges(old(self).edge_seq(), edges@),
            final(self).node_seq() == old(self).node_seq(),
    {
        let ghost input = edges@;
        let n = edges.len();
        let mut queue = reversed(edges);
        let mut i: usize = 0;
        assert(input.take(0) =~= Seq::<Edge>::empty());
        while i < n
            invariant
                n == input.len(),
                i <= n,
                queue@.len() == n - i,
                forall|j: int| 0 <= j < queue@.len() ==> queue@[j] == input[n - 1 - j],
                self.edge_seq() == with_edges(old(self).edge_seq(), input.take(i as int)),
                self.node_seq() == old(self).node_seq(),
            decreases n - i,
        {
            let edge = queue.pop().unwrap();
            assert(edge == input[i as int]);
            self.store_edge(edge);
            assert(input.take(i + 1).drop_last() =~= input.take(i as int));
            i = i + 1;
        }
        assert(input.take(n as int) =~= input);
    }

    /// The nodes with the given identifiers, in order; `None` for one that
    /// is not stored.
    pub fn get_nodes_batch(&self, ids: &Vec<NodeId>) -> (r: Vec<Option<&Node>>)
        ensures
            r@.len() == ids@.len(),
            forall|i: int| 0 <= i < ids@.len() ==> {
                &&& (#[trigger] r@[i]) is Some == has_node(self.node_seq(), ids@[i])
                &&& r@[i] matches Some(n) ==> *n == self.node_seq()[node_index(self.node_seq(), ids@[i])]
            },
    {
        let mut out: Vec<Option<&Node>> = Vec::new();
        let mut i: usize = 0;
        while i < ids.len()
            invariant
                i <= ids@.len(),
                out@.len() == i,
                forall|j: int| 0 <= j < i ==> {
                    &&& (#[trigger] out@[j]) is Some == has_node(self.node_seq(), ids@[j])
                    &&& out@[j] matches Some(n) ==> *n == self.node_seq()[node_index(self.node_seq(), ids@[j])]
                },
            decreases ids@.len() - i,
        {
            out.push(self.get_node(ids[i]));
            i = i + 1;
        }
        out
    }

    /// Delete each of the nodes in turn; edges stay.
    pub fn delete_nodes_batch(&mut self, ids: &Vec<NodeId>)
        ensures
            final(self).node_seq() == without_nodes(old(self).node_seq(), ids@),
            final(self).edge_seq() == old(self).edge_seq(),
    {
        let mut i: usize = 0;
        assert(ids@.take(0) =~= Seq::<NodeId>::empty());
        while i < ids.len()
            invariant
                i <= ids@.len(),
                self.node_seq() == without_nodes(old(self).node_seq(), ids@.take(i as int)),
                self.edge_seq() == old(self).edge_seq(),
            decreases ids@.len() - i,
        {
            self.delete_node(ids[i]);
            assert(ids@.take(i + 1).drop_last() =~= ids@.take(i as int));
            i = i + 1;
        }
        assert(ids@.take(ids@.len() as int) =~= ids@);
    }
}

/// Whether `nodes` and `edges` trace a batch of prompts added one after
/// another: the `i`-th step adds the `i`-th prompt under `ids[i]`.
pub open spec fn prompts_trace(nodes: Seq<Seq<Node>>, edges: Seq<Seq<Edge>>, prompts: Seq<(SessionId, String)>,
    ids: Seq<NodeId>) -> bool
{
    &&& nodes.len() == ids.len() + 1
    &&& edges.len() == ids.len() + 1
    &&& ids.len() <= prompts.len()
    &&& forall|i: int| #![trigger ids[i]] 0 <= i < ids.len() ==> prompt_added(nodes[i], edges[i], nodes[i + 1],
            edges[i + 1], prompts[i].0, prompts[i].1@, None, ids[i])
}

/// Whether `nodes` and `edges` trace a batch of responses added one after
/// another: the `i`-th step adds the `i`-th response under `ids[i]`.
pub open spec fn responses_trace(nodes: Seq<Seq<Node>>, edges: Seq<Seq<Edge>>,
    responses: Seq<(NodeId, String, TokenUsage)>, ids: Seq<NodeId>) -> bool
{
    &&& nodes.len() == ids.len() + 1
    &&& edges.len() == ids.len() + 1
    &&& ids.len() == responses.len()
    &&& forall|i: int| #![trigger ids[i]] 0 <= i < ids.len() ==> response_added(nodes[i], edges[i], nodes[i + 1],
            edges[i + 1], responses[i].0, responses[i].1@, responses[i].2, None, ids[i])
}

/// Whether `nodes` and `edges` trace a batch of sessions created one after
/// another: the `i`-th step creates `sessions[i]`.
pub open spec fn sessions_trace(nodes: Seq<Seq<Node>>, edges: Seq<Seq<Edge>>, sessions: Seq<ConversationSession>) -> bool {
    &&& nodes.len() == sessions.len() + 1
    &&& edges.len() == sessions.len() + 1
    &&& forall|i: int| #![trigger sessions[i]] 0 <= i < sessions.len() ==> session_added(nodes[i], edges[i],
            nodes[i + 1], edges[i + 1], Map::<Seq<char>, Seq<char>>::empty(), sessions[i])
}

/// Whether a batch of prompts stopped with error `e` at a prompt whose
/// session is not stored, after adding the prompts before it (traced from
/// nodes `s` and edges `es` to `t` and `et`).
pub open spec fn prompts_stopped(s: Seq<Node>, es: Seq<Edge>, t: Seq<Node>, et: Seq<Edge>,
    prompts: Seq<(SessionId, String)>, e: Error) -> bool
{
    exists|nodes: Seq<Seq<Node>>, edges: Seq<Seq<Edge>>, ids: Seq<NodeId>|
        #![trigger prompts_trace(nodes, edges, prompts, ids)]
        prompts_trace(nodes, edges, prompts, ids) && trace_spans(nodes, edges, s, es, t, et)
        && ids.len() < prompts.len() && !has_session(t, prompts[ids.len() as int].0)
        && (e matches Error::SessionNotFound(m) && m@ == uuid_text(prompts[ids.len() as int].0.value))
}

/// Whether adding one conversation (a prompt, and the response to it when
/// one is given) took the graph from nodes `s` and edges `es` to `t` and
/// `et`, with the identifiers `out`.
pub open spec fn conversation_added(s: Seq<Node>, es: Seq<Edge>, t: Seq<Node>, et: Seq<Edge>,
    item: ((SessionId, String), Option<(String, TokenUsage)>), out: (NodeId, Option<NodeId>)) -> bool
{
    exists|mn: Seq<Node>, me: Seq<Edge>| #![trigger prompt_added(s, es, mn, me, item.0.0, item.0.1@, None, out.0)]
        prompt_added(s, es, mn, me, item.0.0, item.0.1@, None, out.0)
        && match item.1 {
            None => out.1 is None && t == mn && et == me,
            Some(reply) => out.1 matches Some(rid) && response_added(mn, me, t, et, out.0, reply.0@, reply.1, None, rid),
        }
}

/// Whether `nodes` and `edges` trace a batch of conversations added one
/// after another: the `i`-th step adds the `i`-th one with identifiers
/// `outs[i]`.
pub open spec fn conversations_trace(nodes: Seq<Seq<Node>>, edges: Seq<Seq<Edge>>,
    items: Seq<((SessionId, String), Option<(String, TokenUsage)>)>, outs: Seq<(NodeId, Option<NodeId>)>) -> bool
{
    &&& nodes.len() == outs.len() + 1
    &&& edges.len() == outs.len() + 1
    &&& outs.len() <= items.len()
    &&& forall|i: int| #![trigger outs[i]] 0 <= i < outs.len() ==> conversation_added(nodes[i], edges[i], nodes[i + 1],
            edges[i + 1], items[i], outs[i])
}

/// Whether a batch of conversations stopped with error `e` at one whose
/// session is not stored, after adding those before it.
pub open spec fn conversations_stopped(s: Seq<Node>, es: Seq<Edge>, t: Seq<Node>, et: Seq<Edge>,
    items: Seq<((SessionId, String), Option<(String, TokenUsage)>)>, e: Error) -> bool
{
    exists|nodes: Seq<Seq<Node>>, edges: Seq<Seq<Edge>>, outs: Seq<(NodeId, Option<NodeId>)>|
        #![trigger conversations_trace(nodes, edges, items, outs)]
        conversations_trace(nodes, edges, items, outs) && trace_spans(nodes, edges, s, es, t, et)
        && outs.len() < items.len() && !has_session(t, items[outs.len() as int].0.0)
        && (e matches Error::SessionNotFound(m) && m@ == uuid_text(items[outs.len() as int].0.0.value))
}

/// Whether a trace runs from one graph to another.
pub open spec fn trace_spans<A, B>(nodes: Seq<Seq<A>>, edges: Seq<Seq<B>>, s: Seq<A>, es: Seq<B>, t: Seq<A>, et: Seq<B>) -> bool {
    &&& nodes.len() > 0 && edges.len() > 0
    &&& nodes[0] == s && edges[0] == es
    &&& nodes.last() == t && edges.last() == et
}

impl MemoryGraph {
    /// Add prompts one after another, each to its session with the default
    /// metadata. All their identifiers come back in order; at the first
    /// prompt whose session is not stored the batch stops with that error,
    /// keeping the prompts added before it.
    pub fn add_prompts_batch(&mut self, prompts: Vec<(SessionId, String)>) -> (r: Result<Vec<NodeId>, Error>)
        ensures
            r matches Ok(ids) ==> ids@.len() == prompts@.len()
                && exists|nodes: Seq<Seq<Node>>, edges: Seq<Seq<Edge>>| #![trigger prompts_trace(nodes, edges, prompts@, ids@)]
                    prompts_trace(nodes, edges, prompts@, ids@) && trace_spans(nodes, edges, old(self).node_seq(),
                    old(self).edge_seq(), final(self).node_seq(), final(self).edge_seq()),
            r matches Err(e) ==> prompts_stopped(old(self).node_seq(), old(self).edge_seq(), final(self).node_seq(),
                final(self).edge_seq(), prompts@, e),
    {
        let ghost input = prompts@;
        let n = prompts.len();
        let mut queue = reversed(prompts);
        let mut ids: Vec<NodeId> = Vec::new();
        let ghost mut nodes: Seq<Seq<Node>> = seq![self.node_seq()];
        let ghost mut edges: Seq<Seq<Edge>> = seq![self.edge_seq()];
        let mut i: usize = 0;
        while i < n
            invariant
                n == input.len(),
                input == prompts@,
                i <= n,
                queue@.len() == n - i,
                forall|j: int| 0 <= j < queue@.len() ==> queue@[j] == input[n - 1 - j],
                ids@.len() == i,
                prompts_trace(nodes, edges, input, ids@),
                trace_spans(nodes, edges, old(self).node_seq(), old(self).edge_seq(), self.node_seq(), self.edge_seq()),
            decreases n - i,
        {
            let (sid, content) = queue.pop().unwrap();
            assert((sid, content) == input[i as int]);
            let ghost s0 = self.node_seq();
            let ghost e0 = self.edge_seq();
            match self.add_prompt(sid, content, None) {
                Ok(pid) => {
                    let ghost before = ids@;
                    ids.push(pid);
                    proof {
                        nodes = nodes.push(self.node_seq());
                        edges = edges.push(self.edge_seq());
                        assert forall|j: int| #![trigger ids@[j]] 0 <= j < ids@.len() implies prompt_added(nodes[j], edges[j],
                            nodes[j + 1], edges[j + 1], input[j].0, input[j].1@, None, ids@[j]) by {
                            if j < i {
                                assert(ids@[j] == before[j]);
                            }
                        }
                    }
                },
                Err(e) => {
                    proof {
                        assert(self.node_seq() == s0);
                        assert(prompts_trace(nodes, edges, input, ids@));
                        assert(trace_spans(nodes, edges, old(self).node_seq(), old(self).edge_seq(), self.node_seq(),
                            self.edge_seq()));
                        assert(input[ids@.len() as int].0 == sid);
                        assert(prompts_stopped(old(self).node_seq(), old(self).edge_seq(), self.node_seq(),
                            self.edge_seq(), input, e));
                    }
                    return Err(e);
                },
            }
            i = i + 1;
        }
        proof {
            assert(prompts_trace(nodes, edges, input, ids@));
            assert(trace_spans(nodes, edges, old(self).node_seq(), old(self).edge_seq(), self.node_seq(), self.edge_seq()));
        }
        Ok(ids)
    }

    /// Add responses one after another, each to its prompt with the
    /// default metadata; their identifiers come back in order.
    pub fn add_responses_batch(&mut self, responses: Vec<(NodeId, String, TokenUsage)>) -> (ids: Vec<NodeId>)
        ensures
            exists|nodes: Seq<Seq<Node>>, edges: Seq<Seq<Edge>>| #![trigger responses_trace(nodes, edges, responses@, ids@)]
                responses_trace(nodes, edges, responses@, ids@) && trace_spans(nodes, edges, old(self).node_seq(),
                old(self).edge_seq(), final(self).node_seq(), final(self).edge_seq()),
    {
        let ghost input = responses@;
        let n = responses.len();
        let mut queue = reversed(responses);
        let mut ids: Vec<NodeId> = Vec::new();
        let ghost mut nodes: Seq<Seq<Node>> = seq![self.node_seq()];
        let ghost mut edges: Seq<Seq<Edge>> = seq![self.edge_seq()];
        let mut i: usize = 0;
        while i < n
            invariant
                n == input.len(),
                i <= n,
                queue@.len() == n - i,
                forall|j: int| 0 <= j < queue@.len() ==> queue@[j] == input[n - 1 - j],
                ids@.len() == i,
                responses_trace(nodes, edges, input.take(i as int), ids@),
                trace_spans(nodes, edges, old(self).node_seq(), old(self).edge_seq(), self.node_seq(), self.edge_seq()),
            decreases n - i,
        {
            let (prompt_id, content, usage) = queue.pop().unwrap();
            assert((prompt_id, content, usage) == input[i as int]);
            let ghost before = ids@;
            let rid = self.add_response(prompt_id, content, usage, None);
            ids.push(rid);
            proof {
                nodes = nodes.push(self.node_seq());
                edges = edges.push(self.edge_seq());
                assert forall|j: int| #![trigger ids@[j]] 0 <= j < ids@.len() implies response_added(nodes[j], edges[j],
                    nodes[j + 1], edges[j + 1], input.take(i + 1)[j].0, input.take(i + 1)[j].1@, input.take(i + 1)[j].2,
                    None, ids@[j]) by {
                    if j < i {
                        assert(ids@[j] == before[j]);
                        assert(input.take(i + 1)[j] == input.take(i as int)[j]);
                    }
                }
            }
            i = i + 1;
        }
        assert(input.take(n as int) =~= input);
        ids
    }

    /// Add conversations one after another: each prompt to its session with
    /// the default metadata, then its response, when one is given. The
    /// identifiers come back in order; at the first conversation whose
    /// session is not stored the batch stops with that error, keeping the
    /// conversations added before it.
    pub fn add_conversations_batch(&mut self, conversations: Vec<((SessionId, String), Option<(String, TokenUsage)>)>)
        -> (r: Result<Vec<(NodeId, Option<NodeId>)>, Error>)
        ensures
            r matches Ok(outs) ==> outs@.len() == conversations@.len()
                && exists|nodes: Seq<Seq<Node>>, edges: Seq<Seq<Edge>>|
                    #![trigger conversations_trace(nodes, edges, conversations@, outs@)]
                    conversations_trace(nodes, edges, conversations@, outs@) && trace_spans(nodes, edges,
                    old(self).node_seq(), old(self).edge_seq(), final(self).node_seq(), final(self).edge_seq()),
            r matches Err(e) ==> conversations_stopped(old(self).node_seq(), old(self).edge_seq(), final(self).node_seq(),
                final(self).edge_seq(), conversations@, e),
    {
        let ghost input = conversations@;
        let n = conversations.len();
        let mut queue = reversed(conversations);
        let mut outs: Vec<(NodeId, Option<NodeId>)> = Vec::new();
        let ghost mut nodes: Seq<Seq<Node>> = seq![self.node_seq()];
        let ghost mut edges: Seq<Seq<Edge>> = seq![self.edge_seq()];
        let mut i: usize = 0;
        while i < n
            invariant
                n == input.len(),
                input == conversations@,
                i <= n,
                queue@.len() == n - i,
                forall|j: int| 0 <= j < queue@.len() ==> queue@[j] == input[n - 1 - j],
                outs@.len() == i,
                conversations_trace(nodes, edges, input, outs@),
                trace_spans(nodes, edges, old(self).node_seq(), old(self).edge_seq(), self.node_seq(), self.edge_seq()),
            decreases n - i,
        {
            let ((sid, content), reply) = queue.pop().unwrap();
            let ghost item = input[i as int];
            assert(((sid, content), reply) == item);
            let ghost s0 = self.node_seq();
            let ghost e0 = self.edge_seq();
            let pid = match self.add_prompt(sid, content, None) {
                Ok(pid) => pid,
                Err(e) => {
                    proof {
                        assert(self.node_seq() == s0);
                        assert(conversations_trace(nodes, edges, input, outs@));
                        assert(conversations_stopped(old(self).node_seq(), old(self).edge_seq(), self.node_seq(),
                            self.edge_seq(), input, e));
                    }
                    return Err(e);
                },
            };
            let ghost mn = self.node_seq();
            let ghost me = self.edge_seq();
            assert(prompt_added(s0, e0, mn, me, item.0.0, item.0.1@, None, pid));
            let rid = match reply {
                Some((text, usage)) => {
                    assert(item.1 == Some((text, usage)));
                    let rid = self.add_response(pid, text, usage, None);
                    assert(response_added(mn, me, self.node_seq(), self.edge_seq(), pid, text@, usage, None, rid));
                    Some(rid)
                },
                None => None,
            };
            let ghost before = outs@;
            outs.push((pid, rid));
            proof {
                assert(conversation_added(s0, e0, self.node_seq(), self.edge_seq(), item, (pid, rid))) by {
                    assert(prompt_added(s0, e0, mn, me, item.0.0, item.0.1@, None, (pid, rid).0));
                }
                nodes = nodes.push(self.node_seq());
                edges = edges.push(self.edge_seq());
                assert forall|j: int| #![trigger outs@[j]] 0 <= j < outs@.len() implies conversation_added(nodes[j], edges[j],
                    nodes[j + 1], edges[j + 1], input[j], outs@[j]) by {
                    if j < i {
                        assert(outs@[j] == before[j]);
                    }
                }
            }
            i = i + 1;
        }
        proof {
            assert(conversations_trace(nodes, edges, input, outs@));
            assert(trace_spans(nodes, edges, old(self).node_seq(), old(self).edge_seq(), self.node_seq(), self.edge_seq()));
        }
        Ok(outs)
    }

    /// Create `count` sessions one after another; they come back in order.
    pub fn create_sessions_batch(&mut self, count: usize) -> (r: Vec<ConversationSession>)
        ensures
            r@.len() == count,
            exists|nodes: Seq<Seq<Node>>, edges: Seq<Seq<Edge>>| #![trigger sessions_trace(nodes, edges, r@)]
                sessions_trace(nodes, edges, r@) && trace_spans(nodes, edges, old(self).node_seq(),
                old(self).edge_seq(), final(self).node_seq(), final(self).edge_seq()),
    {
        let mut out: Vec<ConversationSession> = Vec::new();
        let ghost mut nodes: Seq<Seq<Node>> = seq![self.node_seq()];
        let ghost mut edges: Seq<Seq<Edge>> = seq![self.edge_seq()];
        let mut i: usize = 0;
        while i < count
            invariant
                i <= count,
                out@.len() == i,
                sessions_trace(nodes, edges, out@),
                trace_spans(nodes, edges, old(self).node_seq(), old(self).edge_seq(), self.node_seq(), self.edge_seq()),
            decreases count - i,
        {
            let ghost before = out@;
            let session = self.create_session();
            out.push(session);
            proof {
                nodes = nodes.push(self.node_seq());
                edges = edges.push(self.edge_seq());
                assert forall|j: int| #![trigger out@[j]] 0 <= j < out@.len() implies session_added(nodes[j], edges[j],
                    nodes[j + 1], edges[j + 1], Map::<Seq<char>, Seq<char>>::empty(), out@[j]) by {
                    if j < i {
                        assert(out@[j] == before[j]);
                    }
                }
            }
            i = i + 1;
        }
        out
    }
}

// ===== Templates =====

/// Whether `n` is the node of template `tid`.
pub open spec fn is_template_node(n: Node, tid: TemplateId) -> bool {
    n matches Node::Template(t) && t.id == tid
}

/// Whether a node of template `tid` is among `s`.
pub open spec fn has_template(s: Seq<Node>, tid: TemplateId) -> bool {
    exists|i: int| 0 <= i < s.len() && is_template_node(#[trigger] s[i], tid)
}

/// Whether position `i` holds the first node of template `tid`.
pub open spec fn is_first_template(s: Seq<Node>, tid: TemplateId, i: int) -> bool {
    &&& 0 <= i < s.len()
    &&& is_template_node(s[i], tid)
    &&& forall|j: int| 0 <= j < i ==> !is_template_node(#[trigger] s[j], tid)
}

/// The position of the first node of template `tid`.
pub open spec fn first_template_index(s: Seq<Node>, tid: TemplateId) -> int {
    choose|i: int| is_first_template(s, tid, i)
}

impl MemoryGraph {
    /// Store a template; its identifier is returned.
    pub fn create_template(&mut self, template: PromptTemplate) -> (id: TemplateId)
        ensures
            id == template.id,
            final(self).node_seq() == with_node(old(self).node_seq(), Node::Template(template)),
            final(self).edge_seq() == old(self).edge_seq(),
    {
        let id = template.id;
        self.store_node(Node::Template(template));
        id
    }

    /// Store a template again, after a change.
    pub fn update_template(&mut self, template: PromptTemplate)
        ensures
            final(self).node_seq() == with_node(old(self).node_seq(), Node::Template(template)),
            final(self).edge_seq() == old(self).edge_seq(),
    {
        self.store_node(Node::Template(template));
    }

    /// The template with identifier `template_id`: the first stored node of
    /// it; an error naming the template when there is none.
    pub fn get_template(&self, template_id: TemplateId) -> (r: Result<&PromptTemplate, Error>)
        ensures
            r is Ok == has_template(self.node_seq(), template_id),
            r matches Ok(t) ==> self.node_seq()[first_template_index(self.node_seq(), template_id)] == Node::Template(*t)
                && t.id == template_id,
            r matches Err(e) ==> (e matches Error::NodeNotFound(m) && m@ == "Template "@ + uuid_text(template_id.value)),
    {
        proof { use_type_invariant(self); }
        let mut i: usize = 0;
        while i < self.nodes.len()
            invariant
                i <= self.nodes@.len(),
                forall|j: int| 0 <= j < i ==> !is_template_node(#[trigger] self.nodes@[j], template_id),
            decreases self.nodes@.len() - i,
        {
            match &self.nodes[i] {
                Node::Template(t) => {
                    if t.id == template_id {
                        proof {
                            assert(is_first_template(self.nodes@, template_id, i as int));
                            let k = first_template_index(self.nodes@, template_id);
                            assert(is_first_template(self.nodes@, template_id, k));
                            if k < i { assert(!is_template_node(self.nodes@[k], template_id)); }
                            if k > i { assert(!is_template_node(self.nodes@[i as int], template_id)); }
                        }
                        return Ok(t);
                    }
                },
                _ => {},
            }
            i = i + 1;
        }
        let mut m = String::from_str("Template ");
        let id = template_id.to_string();
        m.append(id.as_str());
        Err(Error::NodeNotFound(m))
    }

    /// The template stored under node identifier `node_id`; an error naming
    /// the node when there is none or it is no template.
    pub fn get_template_by_node_id(&self, node_id: NodeId) -> (r: Result<&PromptTemplate, Error>)
        ensures
            r is Ok == (has_node(self.node_seq(), node_id)
                && self.node_seq()[node_index(self.node_seq(), node_id)] is Template),
            r matches Ok(t) ==> self.node_seq()[node_index(self.node_seq(), node_id)] == Node::Template(*t),
            r matches Err(e) ==> (e matches Error::NodeNotFound(m) && m@ == uuid_text(node_id.value)),
    {
        match self.get_node(node_id) {
            Some(Node::Template(t)) => Ok(t),
            _ => Err(Error::NodeNotFound(node_id.to_string())),
        }
    }

    /// Store a template that inherits from the template at
    /// `parent_node_id`: an INHERITS edge leads from the new template's node
    /// to its parent.
    pub fn create_template_from_parent(&mut self, template: PromptTemplate, parent_node_id: NodeId) -> (id: TemplateId)
        ensures
            id == template.id,
            final(self).node_seq() == with_node(old(self).node_seq(), Node::Template(template)),
            exists|e: Edge| #![trigger with_edge(old(self).edge_seq(), e)]
                final(self).edge_seq() == with_edge(old(self).edge_seq(), e)
                && is_link(e, template.node_id, parent_node_id, EdgeType::Inherits),
    {
        let id = template.id;
        let child = template.node_id;
        self.store_node(Node::Template(template));
        self.link(child, parent_node_id, EdgeType::Inherits);
        id
    }

    /// Record that a prompt was instantiated from a template (an
    /// INSTANTIATES edge from the prompt to the template's node).
    pub fn link_prompt_to_template(&mut self, prompt_id: NodeId, template_node_id: NodeId)
        ensures
            final(self).node_seq() == old(self).node_seq(),
            exists|e: Edge| #![trigger with_edge(old(self).edge_seq(), e)]
                final(self).edge_seq() == with_edge(old(self).edge_seq(), e)
                && is_link(e, prompt_id, template_node_id, EdgeType::Instantiates),
    {
        self.link(prompt_id, template_node_id, EdgeType::Instantiates);
    }
}

/// A stored node is found under its identifier.
proof fn lemma_stored(s: Seq<Node>, t: Seq<Node>, n: Node)
    requires
        node_ids_distinct(t),
        t == with_node(s, n),
    ensures
        has_node(t, node_id_of(&n)),
        t[node_index(t, node_id_of(&n))] == n,
{
    let i = if has_node(s, node_id_of(&n)) { node_index(s, node_id_of(&n)) } else { s.len() as int };
    assert(t[i] == n);
    lemma_node_index_unique(t, i);
}

/// A read gives back what a write stored: after a node is stored, the node
/// found under its identifier is that node, every other identifier finds
/// what it found before, and identifiers stay distinct.
pub proof fn lemma_read_after_write(s: Seq<Node>, n: Node, other: NodeId)
    requires
        node_ids_distinct(s),
        other != node_id_of(&n),
    ensures
        node_ids_distinct(with_node(s, n)),
        has_node(with_node(s, n), node_id_of(&n)),
        with_node(s, n)[node_index(with_node(s, n), node_id_of(&n))] == n,
        has_node(with_node(s, n), other) == has_node(s, other),
        has_node(s, other) ==> with_node(s, n)[node_index(with_node(s, n), other)] == s[node_index(s, other)],
{
    let t = with_node(s, n);
    let id = node_id_of(&n);
    let k = if has_node(s, id) { node_index(s, id) } else { s.len() as int };
    assert forall|a: int, b: int| 0 <= a < t.len() && 0 <= b < t.len() && a != b implies
        node_id_of(&#[trigger] t[a]) != node_id_of(&#[trigger] t[b]) by {
        if a != k && b != k {
            assert(t[a] == s[a] && t[b] == s[b]);
        } else if a == k {
            if has_node(s, id) { assert(t[b] == s[b]); } else { assert(t[b] == s[b]); }
        } else {
            if has_node(s, id) { assert(t[a] == s[a]); } else { assert(t[a] == s[a]); }
        }
    }
    lemma_stored(s, t, n);
    if has_node(s, other) {
        let j = node_index(s, other);
        assert(node_id_of(&s[j]) == other);
        assert(j != k);
        assert(t[j] == s[j]);
        lemma_node_index_unique(t, j);
    }
    if has_node(t, other) {
        let j = node_index(t, other);
        assert(node_id_of(&t[j]) == other);
        assert(j != k);
        assert(t[j] == s[j]);
    }
}

/// The same holds of edges: after an edge is stored, the edge found under
/// its identifier is that edge, and every other identifier finds what it
/// found before.
pub proof fn lemma_edge_read_after_write(s: Seq<Edge>, e: Edge, other: EdgeId)
    requires
        edge_ids_distinct(s),
        other != e.id,
    ensures
        edge_ids_distinct(with_edge(s, e)),
        has_edge(with_edge(s, e), e.id),
        with_edge(s, e)[edge_index(with_edge(s, e), e.id)] == e,
        has_edge(with_edge(s, e), other) == has_edge(s, other),
        has_edge(s, other) ==> with_edge(s, e)[edge_index(with_edge(s, e), other)] == s[edge_index(s, other)],
{
    let t = with_edge(s, e);
    let k = if has_edge(s, e.id) { edge_index(s, e.id) } else { s.len() as int };
    assert forall|a: int, b: int| 0 <= a < t.len() && 0 <= b < t.len() && a != b implies
        (#[trigger] t[a]).id != (#[trigger] t[b]).id by {
        if a != k { assert(t[a] == s[a]); }
        if b != k { assert(t[b] == s[b]); }
    }
    assert(t[k] == e);
    let kk = edge_index(t, e.id);
    assert(t[k].id == e.id);
    if kk != k { assert(t[kk].id == e.id); }
    if has_edge(s, other) {
        let j = edge_index(s, other);
        assert(s[j].id == other);
        assert(t[j] == s[j]);
        let jj = edge_index(t, other);
        assert(t[j].id == other);
        if jj != j { assert(t[jj].id == other); }
    }
    if has_edge(t, other) {
        let j = edge_index(t, other);
        assert(t[j].id == other);
        assert(j != k);
        assert(t[j] == s[j]);
    }
}

/// A prompt added to a session is among the session's nodes.
pub proof fn lemma_prompt_joins_session(s: Seq<Node>, es: Seq<Edge>, t: Seq<Node>, et: Seq<Edge>, sid: SessionId,
    content: Seq<char>, metadata: Option<PromptMetadata>, pid: NodeId)
    requires
        prompt_added(s, es, t, et, sid, content, metadata, pid),
    ensures
        session_nodes(t, sid).contains(t[node_index(t, pid)]),
{
    let i = node_index(t, pid);
    assert(in_session(t, t[i], sid));
    t.lemma_filter_contains(|n: Node| in_session(t, n, sid), i);
}

/// A response added under a fresh identifier to a prompt of a session is
/// among the session's nodes.
pub proof fn lemma_response_joins_session(s: Seq<Node>, es: Seq<Edge>, t: Seq<Node>, et: Seq<Edge>, prompt_id: NodeId,
    content: Seq<char>, usage: TokenUsage, metadata: Option<ResponseMetadata>, rid: NodeId, sid: SessionId)
    requires
        response_added(s, es, t, et, prompt_id, content, usage, metadata, rid),
        prompt_in_session(s, prompt_id, sid),
        !has_node(s, rid),
    ensures
        session_nodes(t, sid).contains(t[node_index(t, rid)]),
{
    let i = node_index(t, rid);
    let j = choose|j: int| 0 <= j < s.len() && node_id_of(&#[trigger] s[j]) == prompt_id
        && (s[j] matches Node::Prompt(p) && p.session_id == sid);
    assert(t == s.push(t[i]));
    assert(t[j] == s[j]);
    assert(prompt_in_session(t, prompt_id, sid));
    assert(in_session(t, t[i], sid));
    t.lemma_filter_contains(|n: Node| in_session(t, n, sid), i);
}

/// A template reads back as it was stored: after storing template `t`,
/// looking its identifier up gives `t`, as long as no other stored node is
/// a template with the same identifier.
pub proof fn lemma_template_read_after_write(s: Seq<Node>, t: PromptTemplate)
    requires
        node_ids_distinct(s),
        forall|i: int| 0 <= i < s.len() && is_template_node(#[trigger] s[i], t.id) ==> node_id_of(&s[i]) == t.node_id,
    ensures
        has_template(with_node(s, Node::Template(t)), t.id),
        with_node(s, Node::Template(t))[first_template_index(with_node(s, Node::Template(t)), t.id)] == Node::Template(t),
{
    let n = Node::Template(t);
    let w = with_node(s, n);
    let other = NodeId { value: if t.node_id.value == 0 { 1 } else { 0 } };
    lemma_read_after_write(s, n, other);
    let k = node_index(w, t.node_id);
    assert(w[k] == n);
    assert forall|j: int| 0 <= j < w.len() && j != k implies !is_template_node(#[trigger] w[j], t.id) by {
        if is_template_node(w[j], t.id) {
            let c = if has_node(s, t.node_id) { node_index(s, t.node_id) } else { s.len() as int };
            if has_node(s, t.node_id) {
                assert(w == s.update(c, n));
            } else {
                assert(w == s.push(n));
            }
            if j != c {
                assert(w[j] == s[j]);
                assert(node_id_of(&s[j]) == t.node_id);
            } else {
                assert(w[j] == n);
            }
            assert(node_id_of(&w[j]) == t.node_id);
            assert(node_id_of(&w[k]) == t.node_id);
        }
    }
    assert(is_first_template(w, t.id, k));
    assert(is_template_node(w[k], t.id));
    let f = first_template_index(w, t.id);
    assert(is_first_template(w, t.id, f));
    if f != k {
        assert(!is_template_node(w[f], t.id));
    }
}

/// A deleted node is gone: after deleting `id` from nodes with distinct
/// identifiers no node has it, every other identifier finds what it found
/// before, and identifiers stay distinct.
pub proof fn lemma_delete_then_missing(s: Seq<Node>, id: NodeId, other: NodeId)
    requires
        node_ids_distinct(s),
        other != id,
    ensures
        node_ids_distinct(without_node(s, id)),
        !has_node(without_node(s, id), id),
        has_node(without_node(s, id), other) == has_node(s, other),
        has_node(s, other) ==> without_node(s, id)[node_index(without_node(s, id), other)] == s[node_index(s, other)],
{
    let t = without_node(s, id);
    if has_node(s, id) {
        let k = node_index(s, id);
        assert forall|a: int, b: int| 0 <= a < t.len() && 0 <= b < t.len() && a != b implies
            node_id_of(&#[trigger] t[a]) != node_id_of(&#[trigger] t[b]) by {
            let a2 = if a < k { a } else { a + 1 };
            let b2 = if b < k { b } else { b + 1 };
            assert(t[a] == s[a2] && t[b] == s[b2]);
        }
        if has_node(t, id) {
            let j = node_index(t, id);
            let j2 = if j < k { j } else { j + 1 };
            assert(t[j] == s[j2]);
            assert(false);
        }
        if has_node(s, other) {
            let j = node_index(s, other);
            assert(j != k);
            let j1 = if j < k { j } else { j - 1 };
            assert(t[j1] == s[j]);
            lemma_node_index_unique(t, j1);
        }
        if has_node(t, other) {
            let j = node_index(t, other);
            let j2 = if j < k { j } else { j + 1 };
            assert(t[j] == s[j2]);
        }
    }
}

} // verus!

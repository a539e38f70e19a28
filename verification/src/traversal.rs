//! Breadth-first and depth-first walks of the graph from a node, along the
//! direction of the edges: the part of the graph around the node is
//! gathered here, and the walk itself is petgraph's.

use vstd::prelude::*;
use crate::edges::Edge;
use crate::graph::{MemoryGraph, edge_refs, incoming, outgoing};
use crate::ids::NodeId;

verus! {

// ===== Walks =====

/// Whether an edge leads from `a` to `b`.
pub open spec fn linked(edges: Seq<Edge>, a: NodeId, b: NodeId) -> bool {
    exists|j: int| 0 <= j < edges.len() && (#[trigger] edges[j]).from == a && edges[j].to == b
}

/// Whether `p` is a walk along the edges: each node is linked to the next.
pub open spec fn is_walk(edges: Seq<Edge>, p: Seq<NodeId>) -> bool {
    &&& p.len() > 0
    &&& forall|k: int| #![trigger p[k]] 0 <= k < p.len() - 1 ==> linked(edges, p[k], p[k + 1])
}

/// Whether a walk along the edges leads from `s` to `t`.
pub open spec fn reaches(edges: Seq<Edge>, s: NodeId, t: NodeId) -> bool {
    exists|p: Seq<NodeId>| #![trigger is_walk(edges, p)] is_walk(edges, p) && p[0] == s && p.last() == t
}

/// Whether `p` is a walk along numbered edges `pairs`.
pub open spec fn is_index_walk(pairs: Seq<(usize, usize)>, p: Seq<usize>) -> bool {
    &&& p.len() > 0
    &&& forall|k: int| #![trigger p[k]] 0 <= k < p.len() - 1 ==> pairs.contains((p[k], p[k + 1]))
}

/// Whether a walk along numbered edges leads from `s` to `t`.
pub open spec fn index_reaches(pairs: Seq<(usize, usize)>, s: usize, t: usize) -> bool {
    exists|p: Seq<usize>| #![trigger is_index_walk(pairs, p)] is_index_walk(pairs, p) && p[0] == s && p.last() == t
}

/// Whether `order` visits the nodes of a graph with `node_count` numbered
/// nodes and the edges `pairs` from `start`: `start` first, no node twice,
/// and exactly the nodes reachable from `start`.
pub open spec fn visits_reachable(node_count: usize, pairs: Seq<(usize, usize)>, start: usize, order: Seq<usize>) -> bool {
    &&& order.len() > 0 && order[0] == start
    &&& order.no_duplicates()
    &&& forall|i: int| 0 <= i < order.len() ==> (#[trigger] order[i]) < node_count && index_reaches(pairs, start, order[i])
    &&& forall|t: usize| #![trigger order.contains(t)] #![trigger index_reaches(pairs, start, t)]
            t < node_count && index_reaches(pairs, start, t) ==> order.contains(t)
}

/// The order in which petgraph's `Bfs` visits a directed graph with
/// `node_count` nodes, built by adding the edges `pairs` in turn, from
/// `start`.
pub uninterp spec fn bfs_visit_order(node_count: usize, pairs: Seq<(usize, usize)>, start: usize) -> Seq<usize>;

/// The order in which petgraph's `Dfs` visits a directed graph with
/// `node_count` nodes, built by adding the edges `pairs` in turn, from
/// `start`.
pub uninterp spec fn dfs_visit_order(node_count: usize, pairs: Seq<(usize, usize)>, start: usize) -> Seq<usize>;

/// Whether a numbered walk of at most `len` nodes leads from `s` to `t`.
pub open spec fn index_reaches_within(pairs: Seq<(usize, usize)>, s: usize, t: usize, len: nat) -> bool {
    exists|p: Seq<usize>| #![trigger is_index_walk(pairs, p)]
        is_index_walk(pairs, p) && p[0] == s && p.last() == t && p.len() <= len
}

/// Whether `order` visits nodes breadth first from `start`: a node comes
/// no earlier than any node nearer to `start`, so that the length of the
/// shortest walk from `start` never decreases along the order.
pub open spec fn index_breadth_first(pairs: Seq<(usize, usize)>, start: usize, order: Seq<usize>) -> bool {
    forall|i: int, j: int, len: nat|
        #![trigger order[i], index_reaches_within(pairs, start, order[j], len)]
        0 <= i < j < order.len() && index_reaches_within(pairs, start, order[j], len)
            ==> index_reaches_within(pairs, start, order[i], len)
}

/// Whether the node at position `p` of `order` is where the node at
/// position `i` was reached from when walking depth first: an edge leads
/// from it to that node, and every node visited in between had all its
/// successors visited before position `i`.
pub open spec fn index_dfs_parent(pairs: Seq<(usize, usize)>, order: Seq<usize>, i: int, p: int) -> bool {
    &&& 0 <= p < i
    &&& pairs.contains((order[p], order[i]))
    &&& forall|k: int, m: usize| p < k < i && #[trigger] pairs.contains((order[k], m)) ==> order.take(i).contains(m)
}

/// Whether `order` visits nodes depth first: each node after the first is
/// reached from a node visited before it, and the walk left no node
/// visited after that one with a successor still to visit.
pub open spec fn index_depth_first(pairs: Seq<(usize, usize)>, order: Seq<usize>) -> bool {
    forall|i: int| 0 < i < order.len() ==> #[trigger] index_has_dfs_parent(pairs, order, i)
}

/// Whether some earlier position of `order` is where the node at position
/// `i` was reached from when walking depth first.
pub open spec fn index_has_dfs_parent(pairs: Seq<(usize, usize)>, order: Seq<usize>, i: int) -> bool {
    exists|p: int| #[trigger] index_dfs_parent(pairs, order, i, p)
}

/// Whether numbered edges stay among `node_count` nodes.
pub open spec fn pairs_within(node_count: usize, pairs: Seq<(usize, usize)>) -> bool {
    forall|k: int| 0 <= k < pairs.len() ==> (#[trigger] pairs[k]).0 < node_count && pairs[k].1 < node_count
}

/// Walk a directed graph breadth first with petgraph's `Bfs`: the graph
/// has `node_count` nodes and the edges `pairs`, added in turn.
///
/// Trusted: the order is `bfs_visit_order` of the arguments, and, as
/// petgraph's source shows (a queue seeded with `start`, a node marked as
/// discovered when it joins the queue), it visits `start` first, no node
/// twice, exactly the nodes reachable from `start`, and a node no earlier
/// than any node nearer to `start`. Which of the nodes at one distance
/// comes first is left to the name.
#[verifier::external_body]
fn petgraph_bfs(node_count: usize, pairs: &Vec<(usize, usize)>, start: usize) -> (r: Vec<usize>)
    requires
        start < node_count,
        pairs_within(node_count, pairs@),
    ensures
        r@ == bfs_visit_order(node_count, pairs@, start),
        visits_reachable(node_count, pairs@, start, r@),
        index_breadth_first(pairs@, start, r@),
{
    let mut g = petgraph::graph::DiGraph::<(), (), usize>::with_capacity(node_count, pairs.len());
    for _ in 0..node_count {
        g.add_node(());
    }
    for (a, b) in pairs.iter() {
        g.add_edge(petgraph::graph::NodeIndex::new(*a), petgraph::graph::NodeIndex::new(*b), ());
    }
    let mut walk = petgraph::visit::Bfs::new(&g, petgraph::graph::NodeIndex::new(start));
    let mut out = Vec::new();
    while let Some(x) = walk.next(&g) {
        out.push(x.index());
    }
    out
}

/// Walk a directed graph depth first with petgraph's `Dfs`: the graph has
/// `node_count` nodes and the edges `pairs`, added in turn.
///
/// Trusted: the order is `dfs_visit_order` of the arguments, and, as
/// petgraph's source shows (a stack seeded with `start`; a node popped for
/// the first time is visited and pushes its successors not yet visited),
/// it visits `start` first, no node twice, exactly the nodes reachable
/// from `start`, and depth first: the node visited at a step was pushed by
/// an earlier node with an edge to it, and every node visited since then
/// pushed its unvisited successors above it, so they were all visited
/// first. Which successor comes first is left to the name.
#[verifier::external_body]
fn petgraph_dfs(node_count: usize, pairs: &Vec<(usize, usize)>, start: usize) -> (r: Vec<usize>)
    requires
        start < node_count,
        pairs_within(node_count, pairs@),
    ensures
        r@ == dfs_visit_order(node_count, pairs@, start),
        visits_reachable(node_count, pairs@, start, r@),
        index_depth_first(pairs@, r@),
{
    let mut g = petgraph::graph::DiGraph::<(), (), usize>::with_capacity(node_count, pairs.len());
    for _ in 0..node_count {
        g.add_node(());
    }
    for (a, b) in pairs.iter() {
        g.add_edge(petgraph::graph::NodeIndex::new(*a), petgraph::graph::NodeIndex::new(*b), ());
    }
    let mut walk = petgraph::visit::Dfs::new(&g, petgraph::graph::NodeIndex::new(start));
    let mut out = Vec::new();
    while let Some(x) = walk.next(&g) {
        out.push(x.index());
    }
    out
}

/// The identifiers visited in `order`, where a number names the node at
/// that position of `nodes`.
pub fn ids_in_order(nodes: &Vec<NodeId>, order: &Vec<usize>) -> (r: Vec<NodeId>)
    requires
        forall|i: int| 0 <= i < order@.len() ==> (#[trigger] order@[i]) < nodes@.len(),
    ensures
        r@ == order@.map_values(|i: usize| nodes@[i as int]),
{
    let mut out: Vec<NodeId> = Vec::new();
    let mut k: usize = 0;
    while k < order.len()
        invariant
            k <= order@.len(),
            forall|i: int| 0 <= i < order@.len() ==> (#[trigger] order@[i]) < nodes@.len(),
            out@ == order@.take(k as int).map_values(|i: usize| nodes@[i as int]),
        decreases order@.len() - k,
    {
        out.push(nodes[order[k]]);
        assert(out@ =~= order@.take(k + 1).map_values(|i: usize| nodes@[i as int]));
        k = k + 1;
    }
    assert(order@.take(order@.len() as int) =~= order@);
    out
}

// ===== The part of the graph around a node =====

/// Whether `id` is an end of some edge.
pub open spec fn is_end(edges: Seq<Edge>, id: NodeId) -> bool {
    exists|j: int| 0 <= j < edges.len() && ((#[trigger] edges[j]).from == id || edges[j].to == id)
}

/// Whether every numbered edge stays among `nodes` and stands for an edge
/// between the nodes it numbers.
pub open spec fn pairs_sound(edges: Seq<Edge>, nodes: Seq<NodeId>, pairs: Seq<(usize, usize)>) -> bool {
    forall|k: int| 0 <= k < pairs.len() ==> {
        &&& (#[trigger] pairs[k]).0 < nodes.len()
        &&& pairs[k].1 < nodes.len()
        &&& linked(edges, nodes[pairs[k].0 as int], nodes[pairs[k].1 as int])
    }
}

/// Whether every edge leaving the node at position `i` leads to a node
/// among `nodes` and is numbered from `i` to it.
pub open spec fn closed_at(edges: Seq<Edge>, nodes: Seq<NodeId>, pairs: Seq<(usize, usize)>, i: int) -> bool {
    forall|j: int| 0 <= j < edges.len() && (#[trigger] edges[j]).from == nodes[i] ==>
        exists|m: int| 0 <= m < nodes.len() && nodes[m] == edges[j].to && #[trigger] pairs.contains((i as usize, m as usize))
}

/// Distinct identifiers that are all ends of edges number at most twice
/// the edges.
proof fn lemma_ends_bounded(edges: Seq<Edge>, s: Seq<NodeId>)
    requires
        s.no_duplicates(),
        forall|i: int| 0 <= i < s.len() ==> is_end(edges, #[trigger] s[i]),
    ensures
        s.len() <= 2 * edges.len(),
{
    broadcast use vstd::seq_lib::seq_to_set_is_finite;
    let froms = edges.map_values(|e: Edge| e.from);
    let tos = edges.map_values(|e: Edge| e.to);
    froms.lemma_cardinality_of_set();
    tos.lemma_cardinality_of_set();
    s.unique_seq_to_set();
    assert forall|x: NodeId| s.to_set().contains(x) implies #[trigger] froms.to_set().union(tos.to_set()).contains(x) by {
        let i = choose|i: int| 0 <= i < s.len() && s[i] == x;
        assert(is_end(edges, s[i]));
        let j = choose|j: int| 0 <= j < edges.len() && ((#[trigger] edges[j]).from == x || edges[j].to == x);
        if edges[j].from == x {
            assert(froms[j] == x);
            assert(froms.to_set().contains(x));
        } else {
            assert(tos[j] == x);
            assert(tos.to_set().contains(x));
        }
    }
    vstd::set_lib::lemma_len_union(froms.to_set(), tos.to_set());
    vstd::set_lib::lemma_len_subset(s.to_set(), froms.to_set().union(tos.to_set()));
}

/// The position of `id` among `nodes`, if it is there.
fn position_of(nodes: &Vec<NodeId>, id: NodeId) -> (r: Option<usize>)
    ensures
        r matches Some(i) ==> i < nodes@.len() && nodes@[i as int] == id,
        r is None ==> !nodes@.contains(id),
{
    let mut i: usize = 0;
    while i < nodes.len()
        invariant
            i <= nodes@.len(),
            forall|j: int| 0 <= j < i ==> nodes@[j] != id,
        decreases nodes@.len() - i,
    {
        if nodes[i] == id {
            return Some(i);
        }
        i = i + 1;
    }
    None
}

/// The position of `id` among the discovered nodes; a node seen for the
/// first time is added, and its position is put on the stack of nodes to
/// process.
fn discover(nodes: &mut Vec<NodeId>, stack: &mut Vec<usize>, id: NodeId) -> (r: usize)
    ensures
        r < final(nodes)@.len(),
        final(nodes)@[r as int] == id,
        old(nodes)@.contains(id) ==> final(nodes)@ == old(nodes)@ && final(stack)@ == old(stack)@,
        !old(nodes)@.contains(id) ==> final(nodes)@ == old(nodes)@.push(id) && r == old(nodes)@.len()
            && final(stack)@ == old(stack)@.push(r),
{
    match position_of(nodes, id) {
        Some(i) => i,
        None => {
            let i = nodes.len();
            nodes.push(id);
            stack.push(i);
            i
        },
    }
}

/// Whether `b` extends `a`.
pub open spec fn extends<T>(a: Seq<T>, b: Seq<T>) -> bool {
    a.len() <= b.len() && forall|x: int| 0 <= x < a.len() ==> #[trigger] b[x] == a[x]
}

/// The edges leaving a node stay numbered when more nodes and numbered
/// edges are added.
proof fn lemma_closed_grows(edges: Seq<Edge>, nodes: Seq<NodeId>, pairs: Seq<(usize, usize)>,
    nodes2: Seq<NodeId>, pairs2: Seq<(usize, usize)>, i: int)
    requires
        closed_at(edges, nodes, pairs, i),
        0 <= i < nodes.len(),
        extends(nodes, nodes2),
        extends(pairs, pairs2),
    ensures
        closed_at(edges, nodes2, pairs2, i),
{
    assert forall|j: int| 0 <= j < edges.len() && (#[trigger] edges[j]).from == nodes2[i] implies
        exists|m: int| 0 <= m < nodes2.len() && nodes2[m] == edges[j].to && #[trigger] pairs2.contains((i as usize, m as usize)) by {
        assert(nodes2[i] == nodes[i]);
        let m = choose|m: int| 0 <= m < nodes.len() && nodes[m] == edges[j].to && #[trigger] pairs.contains((i as usize, m as usize));
        let q = choose|q: int| 0 <= q < pairs.len() && pairs[q] == (i as usize, m as usize);
        assert(pairs2[q] == pairs[q]);
        assert(nodes2[m] == nodes[m]);
        assert(pairs2.contains((i as usize, m as usize)));
    }
}

/// Gather the part of the graph that can be reached from `start` along
/// edges in either direction: the nodes in the order they are discovered
/// (`start` first), and the edges among them, numbered by those positions.
/// Nodes are processed from a stack; each adds its outgoing edges and then
/// its incoming ones.
fn explore(graph: &MemoryGraph, start: NodeId) -> (r: (Vec<NodeId>, Vec<(usize, usize)>))
    ensures
        r.0@.len() > 0,
        r.0@[0] == start,
        r.0@.no_duplicates(),
        pairs_sound(graph.edge_seq(), r.0@, r.1@),
        forall|i: int| 0 <= i < r.0@.len() ==> #[trigger] closed_at(graph.edge_seq(), r.0@, r.1@, i),
{
    let ghost edges = graph.edge_seq();
    let ghost bound = 2 * edges.len() + 1;
    let mut nodes: Vec<NodeId> = Vec::new();
    nodes.push(start);
    let mut stack: Vec<usize> = Vec::new();
    stack.push(0);
    let mut pairs: Vec<(usize, usize)> = Vec::new();
    let ghost mut done: Set<int> = Set::empty();
    assert(stack@[0] == 0usize);
    assert(stack@.contains(0usize));
    while stack.len() > 0
        invariant
            edges == graph.edge_seq(),
            bound == 2 * edges.len() + 1,
            nodes@.len() > 0,
            nodes@[0] == start,
            nodes@.no_duplicates(),
            forall|i: int| 1 <= i < nodes@.len() ==> is_end(edges, #[trigger] nodes@[i]),
            nodes@.len() <= bound,
            pairs_sound(edges, nodes@, pairs@),
            stack@.no_duplicates(),
            forall|k: int| 0 <= k < stack@.len() ==> (#[trigger] stack@[k]) < nodes@.len() && !done.contains(stack@[k] as int),
            forall|i: int| 0 <= i < nodes@.len() ==> done.contains(i) || #[trigger] stack@.contains(i as usize),
            forall|i: int| #[trigger] done.contains(i) ==> 0 <= i < nodes@.len() && closed_at(edges, nodes@, pairs@, i),
        decreases 2 * (bound - nodes@.len()) + stack@.len(),
    {
        let ghost st0 = stack@;
        let ci = stack.pop().unwrap();
        assert(stack@ == st0.drop_last() && ci == st0.last());
        let cur = nodes[ci];
        let ghost n0 = nodes@;
        let ghost p0 = pairs@;
        let ghost s0 = stack@;
        let outs = graph.get_outgoing_edges(cur);
        let ghost ov = edge_refs(outs@);
        let mut k: usize = 0;
        while k < outs.len()
            invariant
                edges == graph.edge_seq(),
                bound == 2 * edges.len() + 1,
                ov == edge_refs(outs@),
                ov == outgoing(edges, cur),
                k <= outs@.len(),
                ci < n0.len(),
                n0[ci as int] == cur,
                extends(n0, nodes@),
                extends(p0, pairs@),
                extends(s0, stack@),
                stack@.len() + n0.len() == s0.len() + nodes@.len(),
                nodes@.no_duplicates(),
                forall|i: int| 1 <= i < nodes@.len() ==> is_end(edges, #[trigger] nodes@[i]),
                nodes@.len() <= bound,
                pairs_sound(edges, nodes@, pairs@),
                forall|kk: int| 0 <= kk < k ==> exists|m: int| 0 <= m < nodes@.len() && nodes@[m] == (#[trigger] ov[kk]).to
                    && pairs@.contains((ci, m as usize)),
                forall|x: int| s0.len() <= x < stack@.len() ==> #[trigger] stack@[x] == n0.len() + (x - s0.len()),
            decreases outs@.len() - k,
        {
            let e = outs[k];
            proof {
                assert(ov[k as int] == *e);
                assert(ov.contains(*e));
                edges.lemma_filter_contains_rev(|e: Edge| e.from == cur, *e);
                edges.lemma_filter_pred(|e: Edge| e.from == cur, k as int);
            }
            let ghost nb = nodes@;
            let ghost pb = pairs@;
            let m = discover(&mut nodes, &mut stack, e.to);
            pairs.push((ci, m));
            proof {
                let j = choose|j: int| 0 <= j < edges.len() && edges[j] == *e;
                assert(linked(edges, nodes@[ci as int], nodes@[m as int])) by {
                    assert(edges[j].from == cur && edges[j].to == e.to);
                }
                if nodes@.len() > nb.len() {
                    assert(is_end(edges, e.to)) by { assert(edges[j].to == e.to); }
                    assert forall|i: int| 1 <= i < nodes@.len() implies is_end(edges, #[trigger] nodes@[i]) by {
                        if i < nb.len() { assert(nodes@[i] == nb[i]); }
                    }
                    assert forall|a: int, b: int| 0 <= a < nodes@.len() && 0 <= b < nodes@.len() && a != b
                        implies nodes@[a] != nodes@[b] by {
                        if a < nb.len() && b < nb.len() { assert(nodes@[a] == nb[a] && nodes@[b] == nb[b]); }
                        else if a < nb.len() { assert(nodes@[a] == nb[a]); assert(nb.contains(nb[a])); }
                        else if b < nb.len() { assert(nodes@[b] == nb[b]); assert(nb.contains(nb[b])); }
                    }
                    lemma_ends_bounded(edges, nodes@.drop_first());
                }
                assert forall|q: int| 0 <= q < pairs@.len() implies {
                    &&& (#[trigger] pairs@[q]).0 < nodes@.len()
                    &&& pairs@[q].1 < nodes@.len()
                    &&& linked(edges, nodes@[pairs@[q].0 as int], nodes@[pairs@[q].1 as int])
                } by {
                    if q < pb.len() {
                        assert(pairs@[q] == pb[q]);
                        assert(nodes@[pb[q].0 as int] == nb[pb[q].0 as int]);
                        assert(nodes@[pb[q].1 as int] == nb[pb[q].1 as int]);
                    }
                }
                assert forall|kk: int| 0 <= kk < k + 1 implies exists|mm: int| 0 <= mm < nodes@.len()
                    && nodes@[mm] == (#[trigger] ov[kk]).to && pairs@.contains((ci, mm as usize)) by {
                    if kk < k {
                        let mm = choose|mm: int| 0 <= mm < nb.len() && nb[mm] == ov[kk].to && pb.contains((ci, mm as usize));
                        let q = choose|q: int| 0 <= q < pb.len() && pb[q] == (ci, mm as usize);
                        assert(pairs@[q] == pb[q]);
                        assert(nodes@[mm] == nb[mm]);
                        assert(pairs@.contains((ci, mm as usize)));
                    } else {
                        assert(pairs@[pairs@.len() - 1] == (ci, m));
                        assert(pairs@.contains((ci, m)));
                    }
                }
            }
            k = k + 1;
        }
        assert(ov.len() == outs@.len());
        assert(extends(n0, nodes@));
        assert(pairs_sound(edges, nodes@, pairs@));
        assert(k == outs@.len());
        assert(k > 0 ==> exists|m: int| 0 <= m < nodes@.len() && nodes@[m] == ov[0].to && pairs@.contains((ci, m as usize)));
        assert(forall|kk: int| 0 <= kk < k ==> exists|m: int| 0 <= m < nodes@.len() && nodes@[m] == (#[trigger] ov[kk]).to
            && pairs@.contains((ci, m as usize)));
        assert(forall|kk: int| 0 <= kk < ov.len() ==> exists|m: int| 0 <= m < nodes@.len() && nodes@[m] == (#[trigger] ov[kk]).to
            && pairs@.contains((ci, m as usize)));
        let ins = graph.get_incoming_edges(cur);
        let ghost iv = edge_refs(ins@);
        let mut k: usize = 0;
        while k < ins.len()
            invariant
                edges == graph.edge_seq(),
                bound == 2 * edges.len() + 1,
                ov == outgoing(edges, cur),
                iv == edge_refs(ins@),
                iv == incoming(edges, cur),
                k <= ins@.len(),
                ci < n0.len(),
                n0[ci as int] == cur,
                extends(n0, nodes@),
                extends(p0, pairs@),
                extends(s0, stack@),
                stack@.len() + n0.len() == s0.len() + nodes@.len(),
                nodes@.no_duplicates(),
                forall|i: int| 1 <= i < nodes@.len() ==> is_end(edges, #[trigger] nodes@[i]),
                nodes@.len() <= bound,
                pairs_sound(edges, nodes@, pairs@),
                forall|kk: int| 0 <= kk < ov.len() ==> exists|m: int| 0 <= m < nodes@.len() && nodes@[m] == (#[trigger] ov[kk]).to
                    && pairs@.contains((ci, m as usize)),
                forall|x: int| s0.len() <= x < stack@.len() ==> #[trigger] stack@[x] == n0.len() + (x - s0.len()),
            decreases ins@.len() - k,
        {
            let e = ins[k];
            proof {
                assert(iv[k as int] == *e);
                assert(iv.contains(*e));
                edges.lemma_filter_contains_rev(|e: Edge| e.to == cur, *e);
                edges.lemma_filter_pred(|e: Edge| e.to == cur, k as int);
            }
            let ghost nb = nodes@;
            let ghost pb = pairs@;
            let m = discover(&mut nodes, &mut stack, e.from);
            pairs.push((m, ci));
            proof {
                let j = choose|j: int| 0 <= j < edges.len() && edges[j] == *e;
                assert(linked(edges, nodes@[m as int], nodes@[ci as int])) by {
                    assert(edges[j].from == e.from && edges[j].to == cur);
                }
                if nodes@.len() > nb.len() {
                    assert(is_end(edges, e.from)) by { assert(edges[j].from == e.from); }
                    assert forall|i: int| 1 <= i < nodes@.len() implies is_end(edges, #[trigger] nodes@[i]) by {
                        if i < nb.len() { assert(nodes@[i] == nb[i]); }
                    }
                    assert forall|a: int, b: int| 0 <= a < nodes@.len() && 0 <= b < nodes@.len() && a != b
                        implies nodes@[a] != nodes@[b] by {
                        if a < nb.len() && b < nb.len() { assert(nodes@[a] == nb[a] && nodes@[b] == nb[b]); }
                        else if a < nb.len() { assert(nodes@[a] == nb[a]); assert(nb.contains(nb[a])); }
                        else if b < nb.len() { assert(nodes@[b] == nb[b]); assert(nb.contains(nb[b])); }
                    }
                    lemma_ends_bounded(edges, nodes@.drop_first());
                }
                assert forall|q: int| 0 <= q < pairs@.len() implies {
                    &&& (#[trigger] pairs@[q]).0 < nodes@.len()
                    &&& pairs@[q].1 < nodes@.len()
                    &&& linked(edges, nodes@[pairs@[q].0 as int], nodes@[pairs@[q].1 as int])
                } by {
                    if q < pb.len() {
                        assert(pairs@[q] == pb[q]);
                        assert(nodes@[pb[q].0 as int] == nb[pb[q].0 as int]);
                        assert(nodes@[pb[q].1 as int] == nb[pb[q].1 as int]);
                    }
                }
                assert forall|kk: int| 0 <= kk < ov.len() implies exists|mm: int| 0 <= mm < nodes@.len()
                    && nodes@[mm] == (#[trigger] ov[kk]).to && pairs@.contains((ci, mm as usize)) by {
                    let mm = choose|mm: int| 0 <= mm < nb.len() && nb[mm] == ov[kk].to && pb.contains((ci, mm as usize));
                    let q = choose|q: int| 0 <= q < pb.len() && pb[q] == (ci, mm as usize);
                    assert(pairs@[q] == pb[q]);
                    assert(nodes@[mm] == nb[mm]);
                    assert(pairs@.contains((ci, mm as usize)));
                }
            }
            k = k + 1;
        }
        let total = nodes.len();
        proof {
            // the node just processed is closed
            assert(closed_at(edges, nodes@, pairs@, ci as int)) by {
                assert forall|j: int| 0 <= j < edges.len() && (#[trigger] edges[j]).from == nodes@[ci as int] implies
                    exists|m: int| 0 <= m < nodes@.len() && nodes@[m] == edges[j].to
                        && #[trigger] pairs@.contains((ci as int as usize, m as usize)) by {
                    assert(nodes@[ci as int] == cur);
                    edges.lemma_filter_contains(|e: Edge| e.from == cur, j);
                    let kk = choose|kk: int| 0 <= kk < ov.len() && ov[kk] == edges[j];
                    assert(ov[kk].to == edges[j].to);
                    let m = choose|m: int| 0 <= m < nodes@.len() && nodes@[m] == ov[kk].to && pairs@.contains((ci, m as usize));
                    assert(ci as int as usize == ci);
                    assert(pairs@.contains((ci as int as usize, m as usize)));
                }
            }
            // those processed before stay closed
            assert forall|i: int| #[trigger] done.contains(i) implies 0 <= i < nodes@.len() && closed_at(edges, nodes@, pairs@, i) by {
                lemma_closed_grows(edges, n0, p0, nodes@, pairs@, i);
            }
            done = done.insert(ci as int);
            assert forall|x: int| 0 <= x < stack@.len() implies (#[trigger] stack@[x]) < nodes@.len() && !done.contains(stack@[x] as int) by {
                if x < s0.len() {
                    assert(stack@[x] == s0[x]);
                    assert(s0[x] == st0[x]);
                    assert(st0[x] != st0[st0.len() - 1]);
                }
            }
            assert forall|a: int, b: int| 0 <= a < stack@.len() && 0 <= b < stack@.len() && a != b implies stack@[a] != stack@[b] by {
                if a < s0.len() { assert(stack@[a] == st0[a]); }
                if b < s0.len() { assert(stack@[b] == st0[b]); }
            }
            assert forall|i: int| 0 <= i < nodes@.len() implies done.contains(i) || #[trigger] stack@.contains(i as usize) by {
                if i < n0.len() && i != ci {
                    if !done.contains(i) {
                        assert(st0.contains(i as usize));
                        let x = choose|x: int| 0 <= x < st0.len() && st0[x] == i as usize;
                        assert(st0[x] as int == i);
                        assert(st0[st0.len() - 1] == ci);
                        assert(x != st0.len() - 1);
                        assert(s0[x] == st0[x]);
                        assert(stack@[x] == s0[x]);
                    }
                } else if i >= n0.len() {
                    let x = s0.len() + (i - n0.len());
                    assert(stack@[x] == i as usize);
                }
            }
        }
    }
    assert forall|i: int| 0 <= i < nodes@.len() implies #[trigger] closed_at(edges, nodes@, pairs@, i) by {
        assert(!stack@.contains(i as usize));
    }
    (nodes, pairs)
}

// ===== Walks from a node =====

/// A numbered walk names a walk along the edges.
proof fn lemma_index_walk_to_walk(edges: Seq<Edge>, nodes: Seq<NodeId>, pairs: Seq<(usize, usize)>, p: Seq<usize>)
    requires
        pairs_sound(edges, nodes, pairs),
        is_index_walk(pairs, p),
        p[0] < nodes.len(),
    ensures
        is_walk(edges, p.map_values(|i: usize| nodes[i as int])),
{
    let q = p.map_values(|i: usize| nodes[i as int]);
    assert forall|k: int| #![trigger q[k]] 0 <= k < q.len() - 1 implies linked(edges, q[k], q[k + 1]) by {
        assert(p[k] == p[k]);
        assert(pairs.contains((p[k], p[k + 1])));
        let x = choose|x: int| 0 <= x < pairs.len() && pairs[x] == (p[k], p[k + 1]);
        assert(pairs[x].0 < nodes.len());
    }
}

/// A walk from the first gathered node is a numbered walk from position 0.
#[verifier::rlimit(40)]
proof fn lemma_walk_to_index_walk(edges: Seq<Edge>, nodes: Seq<NodeId>, pairs: Seq<(usize, usize)>, q: Seq<NodeId>)
    -> (p: Seq<usize>)
    requires
        is_walk(edges, q),
        0 < nodes.len() <= usize::MAX,
        q[0] == nodes[0],
        forall|i: int| 0 <= i < nodes.len() ==> #[trigger] closed_at(edges, nodes, pairs, i),
    ensures
        is_index_walk(pairs, p),
        p.len() == q.len(),
        p[0] == 0,
        forall|k: int| 0 <= k < p.len() ==> (#[trigger] p[k]) < nodes.len() && nodes[p[k] as int] == q[k],
    decreases q.len(),
{
    if q.len() == 1 {
        seq![0usize]
    } else {
        let q1 = q.drop_last();
        assert forall|k: int| #![trigger q1[k]] 0 <= k < q1.len() - 1 implies linked(edges, q1[k], q1[k + 1]) by {
            assert(q[k] == q[k]);
        }
        let p1 = lemma_walk_to_index_walk(edges, nodes, pairs, q1);
        let n = q.len() - 2;
        let a = p1[n];
        assert(q[n] == q[n]);
        assert(linked(edges, q[n], q[n + 1]));
        let j = choose|j: int| 0 <= j < edges.len() && (#[trigger] edges[j]).from == q[n] && edges[j].to == q[n + 1];
        assert(nodes[a as int] == q[n]);
        assert(closed_at(edges, nodes, pairs, a as int));
        let m = choose|m: int| 0 <= m < nodes.len() && nodes[m] == edges[j].to && #[trigger] pairs.contains((a as int as usize, m as usize));
        let p = p1.push(m as usize);
        assert forall|k: int| #![trigger p[k]] 0 <= k < p.len() - 1 implies pairs.contains((p[k], p[k + 1])) by {
            if k < n {
                assert(p[k] == p1[k] && p[k + 1] == p1[k + 1]);
                assert(p1[k] == p1[k]);
            } else {
                assert(p[k] == a && p[k + 1] == m as usize);
            }
        }
        assert forall|k: int| 0 <= k < p.len() implies (#[trigger] p[k]) < nodes.len() && nodes[p[k] as int] == q[k] by {
            if k < p1.len() {
                assert(p[k] == p1[k]);
            } else {
                assert(p[k] == m as usize);
                assert(m as usize as int == m);
            }
        }
        p
    }
}

/// Whether `r` visits the nodes of the graph from `start` along the
/// direction of the edges: `start` first, no node twice, and exactly the
/// nodes that a walk from `start` reaches.
pub open spec fn visits_from(edges: Seq<Edge>, start: NodeId, r: Seq<NodeId>) -> bool {
    &&& r.len() > 0 && r[0] == start
    &&& r.no_duplicates()
    &&& forall|i: int| 0 <= i < r.len() ==> reaches(edges, start, #[trigger] r[i])
    &&& forall|t: NodeId| #[trigger] reaches(edges, start, t) ==> r.contains(t)
}

/// A visiting order over the gathered part of the graph, read as the
/// identifiers it names, visits the graph from `start`.
proof fn lemma_order_visits(edges: Seq<Edge>, start: NodeId, nv: Seq<NodeId>, pv: Seq<(usize, usize)>, n: usize,
    ov: Seq<usize>, rv: Seq<NodeId>)
    requires
        n == nv.len(),
        nv.len() > 0,
        nv[0] == start,
        nv.no_duplicates(),
        pairs_sound(edges, nv, pv),
        forall|i: int| 0 <= i < nv.len() ==> #[trigger] closed_at(edges, nv, pv, i),
        visits_reachable(n, pv, 0, ov),
        rv == ov.map_values(|i: usize| nv[i as int]),
    ensures
        visits_from(edges, start, rv),
{
    assert(rv[0] == nv[0]);
    assert forall|a: int, b: int| 0 <= a < rv.len() && 0 <= b < rv.len() && a != b implies rv[a] != rv[b] by {
        assert(ov[a] != ov[b]);
        assert(ov[a] < nv.len() && ov[b] < nv.len());
    }
    assert forall|i: int| 0 <= i < rv.len() implies reaches(edges, start, #[trigger] rv[i]) by {
        lemma_visit_reached(edges, start, nv, pv, n, ov, rv, i);
    }
    assert forall|t: NodeId| #[trigger] reaches(edges, start, t) implies rv.contains(t) by {
        lemma_reached_visited(edges, start, nv, pv, n, ov, rv, t);
    }
}

/// Each visited node is reached by a walk from `start`.
proof fn lemma_visit_reached(edges: Seq<Edge>, start: NodeId, nv: Seq<NodeId>, pv: Seq<(usize, usize)>, n: usize,
    ov: Seq<usize>, rv: Seq<NodeId>, i: int)
    requires
        n == nv.len(),
        nv.len() > 0,
        nv[0] == start,
        pairs_sound(edges, nv, pv),
        visits_reachable(n, pv, 0, ov),
        rv == ov.map_values(|x: usize| nv[x as int]),
        0 <= i < rv.len(),
    ensures
        reaches(edges, start, rv[i]),
{
    assert(ov[i] < n && index_reaches(pv, 0, ov[i]));
    let p = choose|p: Seq<usize>| #[trigger] is_index_walk(pv, p) && p[0] == 0 && p.last() == ov[i];
    lemma_index_walk_to_walk(edges, nv, pv, p);
    let q = p.map_values(|x: usize| nv[x as int]);
    assert(is_walk(edges, q) && q[0] == start && q.last() == rv[i]);
}

/// Each node a walk from `start` reaches is visited.
proof fn lemma_reached_visited(edges: Seq<Edge>, start: NodeId, nv: Seq<NodeId>, pv: Seq<(usize, usize)>, n: usize,
    ov: Seq<usize>, rv: Seq<NodeId>, t: NodeId)
    requires
        n == nv.len(),
        nv.len() > 0,
        nv[0] == start,
        forall|i: int| 0 <= i < nv.len() ==> #[trigger] closed_at(edges, nv, pv, i),
        visits_reachable(n, pv, 0, ov),
        rv == ov.map_values(|x: usize| nv[x as int]),
        reaches(edges, start, t),
    ensures
        rv.contains(t),
{
    let q = choose|q: Seq<NodeId>| #[trigger] is_walk(edges, q) && q[0] == start && q.last() == t;
    let p = lemma_walk_to_index_walk(edges, nv, pv, q);
    let last = p.last();
    assert(p[p.len() - 1] < nv.len());
    assert(index_reaches(pv, 0, last));
    assert(ov.contains(last));
    let i = choose|i: int| 0 <= i < ov.len() && ov[i] == last;
    assert(rv[i] == nv[last as int]);
    assert(nv[p[p.len() - 1] as int] == q[q.len() - 1]);
}

/// Whether a walk of at most `len` nodes along the edges leads from `s`
/// to `t`.
pub open spec fn reaches_within(edges: Seq<Edge>, s: NodeId, t: NodeId, len: nat) -> bool {
    exists|q: Seq<NodeId>| #![trigger is_walk(edges, q)] is_walk(edges, q) && q[0] == s && q.last() == t && q.len() <= len
}

/// Whether `r` visits nodes breadth first from `start`: the length of the
/// shortest walk from `start` never decreases along `r`.
pub open spec fn breadth_first(edges: Seq<Edge>, start: NodeId, r: Seq<NodeId>) -> bool {
    forall|i: int, j: int, len: nat|
        #![trigger r[i], reaches_within(edges, start, r[j], len)]
        0 <= i < j < r.len() && reaches_within(edges, start, r[j], len) ==> reaches_within(edges, start, r[i], len)
}

/// Whether the node at position `p` of `r` is where the node at position
/// `i` was reached from when walking depth first: an edge leads from it to
/// that node, and every node visited in between had all its successors
/// visited before position `i`.
pub open spec fn dfs_parent(edges: Seq<Edge>, r: Seq<NodeId>, i: int, p: int) -> bool {
    &&& 0 <= p < i
    &&& linked(edges, r[p], r[i])
    &&& forall|k: int, x: NodeId| p < k < i && #[trigger] linked(edges, r[k], x) ==> r.take(i).contains(x)
}

/// Whether `r` visits nodes depth first: each node after the first is
/// reached from a node visited before it, and no node visited after that
/// one still had a successor to visit.
pub open spec fn depth_first(edges: Seq<Edge>, r: Seq<NodeId>) -> bool {
    forall|i: int| 0 < i < r.len() ==> #[trigger] has_dfs_parent(edges, r, i)
}

/// Whether some earlier position is where the node at position `i` was
/// reached from when walking depth first.
pub open spec fn has_dfs_parent(edges: Seq<Edge>, r: Seq<NodeId>, i: int) -> bool {
    exists|p: int| #[trigger] dfs_parent(edges, r, i, p)
}

/// A breadth-first order over the gathered part of the graph, read as the
/// identifiers it names, is a breadth-first order of the graph.
proof fn lemma_order_breadth_first(edges: Seq<Edge>, start: NodeId, nv: Seq<NodeId>, pv: Seq<(usize, usize)>,
    ov: Seq<usize>, rv: Seq<NodeId>)
    requires
        0 < nv.len() <= usize::MAX,
        nv[0] == start,
        nv.no_duplicates(),
        pairs_sound(edges, nv, pv),
        forall|i: int| 0 <= i < nv.len() ==> #[trigger] closed_at(edges, nv, pv, i),
        forall|i: int| 0 <= i < ov.len() ==> (#[trigger] ov[i]) < nv.len(),
        index_breadth_first(pv, 0, ov),
        rv == ov.map_values(|x: usize| nv[x as int]),
    ensures
        breadth_first(edges, start, rv),
{
    assert forall|i: int, j: int, len: nat|
        #![trigger rv[i], reaches_within(edges, start, rv[j], len)]
        0 <= i < j < rv.len() && reaches_within(edges, start, rv[j], len) implies reaches_within(edges, start, rv[i], len) by {
        let q = choose|q: Seq<NodeId>| #[trigger] is_walk(edges, q) && q[0] == start && q.last() == rv[j] && q.len() <= len;
        let p = lemma_walk_to_index_walk(edges, nv, pv, q);
        let t = p.last();
        assert(p[p.len() - 1] < nv.len() && nv[p[p.len() - 1] as int] == q[q.len() - 1]);
        assert(ov[j] < nv.len());
        assert(rv[j] == nv[ov[j] as int]);
        assert(t == ov[j]);
        assert(index_reaches_within(pv, 0, ov[j], len));
        assert(ov[i] == ov[i]);
        assert(index_reaches_within(pv, 0, ov[i], len));
        let p2 = choose|p2: Seq<usize>| #[trigger] is_index_walk(pv, p2) && p2[0] == 0 && p2.last() == ov[i] && p2.len() <= len;
        lemma_index_walk_to_walk(edges, nv, pv, p2);
        let q2 = p2.map_values(|x: usize| nv[x as int]);
        assert(is_walk(edges, q2) && q2[0] == start && q2.last() == rv[i] && q2.len() <= len);
    }
}

/// A depth-first order over the gathered part of the graph, read as the
/// identifiers it names, is a depth-first order of the graph.
proof fn lemma_order_depth_first(edges: Seq<Edge>, nv: Seq<NodeId>, pv: Seq<(usize, usize)>,
    ov: Seq<usize>, rv: Seq<NodeId>)
    requires
        0 < nv.len() <= usize::MAX,
        pairs_sound(edges, nv, pv),
        forall|i: int| 0 <= i < nv.len() ==> #[trigger] closed_at(edges, nv, pv, i),
        forall|i: int| 0 <= i < ov.len() ==> (#[trigger] ov[i]) < nv.len(),
        index_depth_first(pv, ov),
        rv == ov.map_values(|x: usize| nv[x as int]),
    ensures
        depth_first(edges, rv),
{
    assert forall|i: int| 0 < i < rv.len() implies #[trigger] has_dfs_parent(edges, rv, i) by {
        assert(rv.len() == ov.len());
        assert(index_has_dfs_parent(pv, ov, i));
        let p = choose|p: int| #[trigger] index_dfs_parent(pv, ov, i, p);
        let x = choose|x: int| 0 <= x < pv.len() && pv[x] == (ov[p], ov[i]);
        assert(pv[x].0 < nv.len());
        assert(linked(edges, rv[p], rv[i]));
        assert forall|k: int, y: NodeId| p < k < i && #[trigger] linked(edges, rv[k], y) implies rv.take(i).contains(y) by {
            let a = ov[k];
            assert(a < nv.len());
            assert(closed_at(edges, nv, pv, a as int));
            let j = choose|j: int| 0 <= j < edges.len() && (#[trigger] edges[j]).from == rv[k] && edges[j].to == y;
            assert(nv[a as int] == rv[k]);
            let m = choose|m: int| 0 <= m < nv.len() && nv[m] == edges[j].to && #[trigger] pv.contains((a as int as usize, m as usize));
            assert(a as int as usize == a);
            assert(pv.contains((ov[k], m as usize)));
            assert(ov.take(i).contains(m as usize));
            let b = choose|b: int| 0 <= b < ov.take(i).len() && ov.take(i)[b] == m as usize;
            assert(rv.take(i)[b] == nv[ov[b] as int]);
            assert(m as usize as int == m);
        }
        assert(dfs_parent(edges, rv, i, p));
    }
}

/// Walk the graph from `start` along the direction of the edges, breadth
/// first or depth first, with petgraph over the part of the graph around
/// `start`.
pub fn walk_from(graph: &MemoryGraph, start: NodeId, breadth: bool) -> (r: Vec<NodeId>)
    ensures
        visits_from(graph.edge_seq(), start, r@),
        breadth ==> breadth_first(graph.edge_seq(), start, r@),
        !breadth ==> depth_first(graph.edge_seq(), r@),
{
    let ghost edges = graph.edge_seq();
    let (nodes, pairs) = explore(graph, start);
    let ghost nv = nodes@;
    let ghost pv = pairs@;
    let order = if breadth {
        petgraph_bfs(nodes.len(), &pairs, 0)
    } else {
        petgraph_dfs(nodes.len(), &pairs, 0)
    };
    let ghost ov = order@;
    let r = ids_in_order(&nodes, &order);
    proof {
        lemma_order_visits(edges, start, nv, pv, nodes.len(), ov, r@);
        if breadth {
            lemma_order_breadth_first(edges, start, nv, pv, ov, r@);
        } else {
            lemma_order_depth_first(edges, nv, pv, ov, r@);
        }
    }
    r
}

} // verus!

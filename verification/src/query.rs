//! Queries over the memory graph: filtering, ordering and paging of a
//! session's nodes, conversation threads and the responses to a prompt.

use vstd::prelude::*;
use crate::edges::{Edge, EdgeType};
use crate::error::Error;
use crate::graph::{MemoryGraph, has_node, node_index, session_nodes, incoming, node_refs, edge_refs};
use crate::ids::{NodeId, SessionId, Timestamp, ts_le, uuid_text};
use crate::nodes::{Node, NodeType, node_id_of, node_time, node_type_of};
use crate::order::{Ranked, stable_sort, stable_sorted};
use crate::traversal::{breadth_first, depth_first, visits_from, walk_from};

verus! {

// ===== Filters =====

/// Whether a node passes the filters of a query: its kind, and a time
/// window whose ends are inclusive.
pub open spec fn passes(n: Node, node_type: Option<NodeType>, start: Option<Timestamp>, end: Option<Timestamp>) -> bool {
    &&& (node_type matches Some(t) ==> node_type_of(&n) == t)
    &&& (start matches Some(s) ==> ts_le(s, node_time(&n)))
    &&& (end matches Some(e) ==> ts_le(node_time(&n), e))
}

/// The nodes of `s` that pass the filters, in order.
pub open spec fn filtered(s: Seq<Node>, node_type: Option<NodeType>, start: Option<Timestamp>, end: Option<Timestamp>) -> Seq<Node> {
    s.filter(|n: Node| passes(n, node_type, start, end))
}

/// What paging keeps of `s`: `offset` nodes are skipped and at most
/// `limit` follow.
pub open spec fn paged(s: Seq<Node>, offset: nat, limit: Option<nat>) -> Seq<Node> {
    let from = if offset <= s.len() { offset as int } else { s.len() as int };
    let to = match limit {
        Some(l) => if from + l <= s.len() { from + l } else { s.len() as int },
        None => s.len() as int,
    };
    s.subrange(from, to)
}

fn node_passes(n: &Node, node_type: Option<NodeType>, start: Option<Timestamp>, end: Option<Timestamp>) -> (r: bool)
    ensures
        r == passes(*n, node_type, start, end),
{
    let t = n.time();
    let type_ok = match node_type {
        Some(k) => n.node_type() == k,
        None => true,
    };
    let start_ok = match start {
        Some(s) => s.le(&t),
        None => true,
    };
    let end_ok = match end {
        Some(e) => t.le(&e),
        None => true,
    };
    type_ok && start_ok && end_ok
}

/// Keep the nodes that pass the filters, in order.
fn filter_nodes<'a>(nodes: Vec<&'a Node>, node_type: Option<NodeType>, start: Option<Timestamp>, end: Option<Timestamp>) -> (r: Vec<&'a Node>)
    ensures
        node_refs(r@) == filtered(node_refs(nodes@), node_type, start, end),
{
    let ghost s = node_refs(nodes@);
    let ghost pred = |n: Node| passes(n, node_type, start, end);
    let mut out: Vec<&'a Node> = Vec::new();
    let mut i: usize = 0;
    proof { reveal(Seq::filter); }
    assert(s.take(0) =~= Seq::<Node>::empty());
    while i < nodes.len()
        invariant
            i <= nodes@.len(),
            s == node_refs(nodes@),
            pred == (|n: Node| passes(n, node_type, start, end)),
            node_refs(out@) == s.take(i as int).filter(pred),
        decreases nodes@.len() - i,
    {
        let n = nodes[i];
        let keep = node_passes(n, node_type, start, end);
        let ghost before = out@;
        proof {
            assert(s.take(i + 1).drop_last() =~= s.take(i as int));
            assert(s.take(i + 1).last() == *n);
            reveal(Seq::filter);
        }
        if keep {
            out.push(n);
            proof { assert(node_refs(out@) =~= node_refs(before).push(*n)); }
        }
        i = i + 1;
    }
    assert(s.take(nodes@.len() as int) =~= s);
    out
}

/// Sorting borrowed nodes sorts their views.
proof fn lemma_sorted_refs(s: Seq<&Node>, newest_first: bool)
    ensures
        node_refs(stable_sorted(s, newest_first)) == stable_sorted(node_refs(s), newest_first),
    decreases s.len(),
{
    if s.len() > 0 {
        lemma_sorted_refs(s.drop_last(), newest_first);
        let r = stable_sorted(s.drop_last(), newest_first);
        let rv = stable_sorted(node_refs(s.drop_last()), newest_first);
        assert(node_refs(s).drop_last() =~= node_refs(s.drop_last()));
        lemma_insert_position_refs(r, s.last(), newest_first);
        let p = crate::order::insert_position(r, s.last(), newest_first) as int;
        crate::order::lemma_stable_sorted(s.drop_last(), newest_first);
        assert(p <= r.len()) by { lemma_insert_position_le(r, s.last(), newest_first); }
        assert(node_refs(r.insert(p, s.last())) =~= rv.insert(p, *s.last()));
    }
}

proof fn lemma_insert_position_le(s: Seq<&Node>, x: &Node, newest_first: bool)
    ensures
        crate::order::insert_position(s, x, newest_first) <= s.len(),
    decreases s.len(),
{
    if s.len() > 0 {
        lemma_insert_position_le(s.drop_first(), x, newest_first);
    }
}

proof fn lemma_insert_position_refs(s: Seq<&Node>, x: &Node, newest_first: bool)
    ensures
        crate::order::insert_position(s, x, newest_first) == crate::order::insert_position(node_refs(s), *x, newest_first),
    decreases s.len(),
{
    if s.len() > 0 {
        lemma_insert_position_refs(s.drop_first(), x, newest_first);
        assert(node_refs(s).drop_first() =~= node_refs(s.drop_first()));
    }
}

/// Keep what paging keeps.
fn page<'a>(nodes: Vec<&'a Node>, offset: usize, limit: Option<usize>) -> (r: Vec<&'a Node>)
    ensures
        node_refs(r@) == paged(node_refs(nodes@), offset as nat, match limit { Some(l) => Some(l as nat), None => None }),
{
    let n = nodes.len();
    let from: usize = if offset <= n { offset } else { n };
    let to: usize = match limit {
        Some(l) => if l <= n - from { from + l } else { n },
        None => n,
    };
    let mut out: Vec<&'a Node> = Vec::new();
    let mut i: usize = from;
    while i < to
        invariant
            from <= i <= to <= n == nodes@.len(),
            out@ == nodes@.subrange(from as int, i as int),
        decreases to - i,
    {
        out.push(nodes[i]);
        proof { assert(out@ =~= nodes@.subrange(from as int, i + 1)); }
        i = i + 1;
    }
    proof {
        assert(node_refs(out@) =~= node_refs(nodes@).subrange(from as int, to as int));
    }
    out
}

// ===== Query builders =====

/// What a query over a session gives: the session's nodes that pass the
/// filters, newest first, then paged.
pub open spec fn query_result(s: Seq<Node>, node_type: Option<NodeType>, start: Option<Timestamp>, end: Option<Timestamp>,
    offset: nat, limit: Option<nat>) -> Seq<Node>
{
    paged(stable_sorted(filtered(s, node_type, start, end), true), offset, limit)
}

/// A query over the nodes of a session of a memory graph.
#[derive(Debug, Clone, Copy, PartialEq, Eq, Structural)]
pub struct QueryBuilder {
    /// Session whose nodes are queried
    pub session_filter: Option<SessionId>,
    /// Kind of node kept
    pub node_type_filter: Option<NodeType>,
    /// Earliest time kept (inclusive)
    pub start_time: Option<Timestamp>,
    /// Latest time kept (inclusive)
    pub end_time: Option<Timestamp>,
    /// Most nodes returned
    pub limit: Option<usize>,
    /// Nodes skipped
    pub offset: usize,
}

/// The limit of a query as a number.
pub open spec fn limit_of(limit: Option<usize>) -> Option<nat> {
    match limit {
        Some(l) => Some(l as nat),
        None => None,
    }
}

impl QueryBuilder {
    /// A query with no filters.
    pub fn new() -> (q: Self)
        ensures
            q == (QueryBuilder { session_filter: None, node_type_filter: None, start_time: None, end_time: None, limit: None, offset: 0 }),
    {
        QueryBuilder { session_filter: None, node_type_filter: None, start_time: None, end_time: None, limit: None, offset: 0 }
    }

    /// Query the nodes of a session.
    pub fn session(self, session_id: SessionId) -> (q: Self)
        ensures
            q == (QueryBuilder { session_filter: Some(session_id), ..self }),
    {
        QueryBuilder { session_filter: Some(session_id), ..self }
    }

    /// Keep nodes of one kind.
    pub fn node_type(self, node_type: NodeType) -> (q: Self)
        ensures
            q == (QueryBuilder { node_type_filter: Some(node_type), ..self }),
    {
        QueryBuilder { node_type_filter: Some(node_type), ..self }
    }

    /// Keep nodes no earlier than `time`.
    pub fn after(self, time: Timestamp) -> (q: Self)
        ensures
            q == (QueryBuilder { start_time: Some(time), ..self }),
    {
        QueryBuilder { start_time: Some(time), ..self }
    }

    /// Keep nodes no later than `time`.
    pub fn before(self, time: Timestamp) -> (q: Self)
        ensures
            q == (QueryBuilder { end_time: Some(time), ..self }),
    {
        QueryBuilder { end_time: Some(time), ..self }
    }

    /// Return at most `limit` nodes.
    pub fn limit(self, limit: usize) -> (q: Self)
        ensures
            q == (QueryBuilder { limit: Some(limit), ..self }),
    {
        QueryBuilder { limit: Some(limit), ..self }
    }

    /// Skip the first `offset` nodes.
    pub fn offset(self, offset: usize) -> (q: Self)
        ensures
            q == (QueryBuilder { offset, ..self }),
    {
        QueryBuilder { offset, ..self }
    }

    /// Run the query on a graph: the session's nodes that pass the filters,
    /// newest first, from the offset on and at most the limit of them (an
    /// offset past the end gives an empty page). A query must name a
    /// session.
    pub fn execute<'a>(&self, graph: &'a MemoryGraph) -> (r: Result<Vec<&'a Node>, Error>)
        ensures
            self.session_filter is None ==> (r matches Err(Error::ValidationError(m)) && m@ == "Query must specify a session filter"@),
            self.session_filter matches Some(sid) ==> (r matches Ok(v) && node_refs(v@) == query_result(session_nodes(graph.node_seq(), sid),
                self.node_type_filter, self.start_time, self.end_time, self.offset as nat, limit_of(self.limit))),
    {
        match self.session_filter {
            None => Err(Error::ValidationError(String::from_str("Query must specify a session filter"))),
            Some(sid) => {
                let nodes = graph.get_session_nodes(sid);
                let kept = filter_nodes(nodes, self.node_type_filter, self.start_time, self.end_time);
                let ghost kv = kept@;
                let sorted = stable_sort(kept, true);
                proof {
                    lemma_sorted_refs(kv, true);
                    crate::order::lemma_stable_sorted(kv, true);
                }
                Ok(page(sorted, self.offset, self.limit))
            },
        }
    }
}

/// A window of time, both ends inclusive.
#[derive(Debug, Clone, Copy, PartialEq, Eq, Structural)]
pub struct TimeRange {
    /// Earliest time kept
    pub start: Timestamp,
    /// Latest time kept
    pub end: Timestamp,
}

/// A query over the nodes a store hands back for a session; without a
/// session there is nothing to query.
#[derive(Debug, Clone, Copy, PartialEq, Eq, Structural)]
pub struct AsyncQueryBuilder {
    /// Session whose nodes are queried
    pub session_filter: Option<SessionId>,
    /// Kind of node kept
    pub node_type_filter: Option<NodeType>,
    /// Time window kept (both ends inclusive)
    pub time_range: Option<TimeRange>,
    /// Most nodes returned
    pub limit: Option<usize>,
    /// Nodes skipped
    pub offset: usize,
}

/// The start of an optional time window.
pub open spec fn range_start(r: Option<TimeRange>) -> Option<Timestamp> {
    match r {
        Some(w) => Some(w.start),
        None => None,
    }
}

/// The end of an optional time window.
pub open spec fn range_end(r: Option<TimeRange>) -> Option<Timestamp> {
    match r {
        Some(w) => Some(w.end),
        None => None,
    }
}

impl AsyncQueryBuilder {
    /// A query with no filters.
    pub fn new() -> (q: Self)
        ensures
            q == (AsyncQueryBuilder { session_filter: None, node_type_filter: None, time_range: None, limit: None, offset: 0 }),
    {
        AsyncQueryBuilder { session_filter: None, node_type_filter: None, time_range: None, limit: None, offset: 0 }
    }

    /// Query the nodes of a session.
    pub fn session(self, session_id: SessionId) -> (q: Self)
        ensures
            q == (AsyncQueryBuilder { session_filter: Some(session_id), ..self }),
    {
        AsyncQueryBuilder { session_filter: Some(session_id), ..self }
    }

    /// Keep nodes of one kind.
    pub fn node_type(self, node_type: NodeType) -> (q: Self)
        ensures
            q == (AsyncQueryBuilder { node_type_filter: Some(node_type), ..self }),
    {
        AsyncQueryBuilder { node_type_filter: Some(node_type), ..self }
    }

    /// Keep nodes within a time window (both ends inclusive).
    pub fn time_range(self, start: Timestamp, end: Timestamp) -> (q: Self)
        ensures
            q == (AsyncQueryBuilder { time_range: Some(TimeRange { start, end }), ..self }),
    {
        AsyncQueryBuilder { time_range: Some(TimeRange { start, end }), ..self }
    }

    /// Return at most `limit` nodes.
    pub fn limit(self, limit: usize) -> (q: Self)
        ensures
            q == (AsyncQueryBuilder { limit: Some(limit), ..self }),
    {
        AsyncQueryBuilder { limit: Some(limit), ..self }
    }

    /// Skip the first `offset` nodes.
    pub fn offset(self, offset: usize) -> (q: Self)
        ensures
            q == (AsyncQueryBuilder { offset, ..self }),
    {
        AsyncQueryBuilder { offset, ..self }
    }

    /// Run the query on the nodes of its session: those that pass the
    /// filters, newest first, from the offset on and at most the limit of
    /// them. Without a session the result is empty.
    pub fn execute<'a>(&self, graph: &'a MemoryGraph) -> (r: Vec<&'a Node>)
        ensures
            self.session_filter is None ==> r@.len() == 0,
            self.session_filter matches Some(sid) ==> node_refs(r@) == query_result(session_nodes(graph.node_seq(), sid),
                self.node_type_filter, range_start(self.time_range), range_end(self.time_range), self.offset as nat, limit_of(self.limit)),
    {
        match self.session_filter {
            None => Vec::new(),
            Some(sid) => {
                let nodes = graph.get_session_nodes(sid);
                let (start, end) = match self.time_range {
                    Some(w) => (Some(w.start), Some(w.end)),
                    None => (None, None),
                };
                let kept = filter_nodes(nodes, self.node_type_filter, start, end);
                let ghost kv = kept@;
                let sorted = stable_sort(kept, true);
                proof { lemma_sorted_refs(kv, true); }
                page(sorted, self.offset, self.limit)
            },
        }
    }
}

// ===== Streaming =====

/// How far a streamed query has got: nodes skipped for the offset and
/// nodes handed out.
#[derive(Debug, Clone, Copy, PartialEq, Eq, Structural)]
pub struct StreamCursor {
    /// Matching nodes skipped so far
    pub skipped: usize,
    /// Nodes handed out so far
    pub emitted: usize,
}

/// What a streamed query does with the next item a store hands it.
#[derive(Debug, Clone, Copy, PartialEq, Eq, Structural)]
pub enum StreamAction {
    /// Hand the item on (a node that is kept, or an error)
    Yield,
    /// Drop the item and read on
    Skip,
    /// Stop reading: the limit is reached
    Finish,
}

/// One step of a streamed query on the item read from the store: an error
/// is handed on, a node that fails the filters or falls before the offset
/// is dropped, and a node past the limit ends the stream.
pub open spec fn stream_step(q: AsyncQueryBuilder, c: StreamCursor, item: Result<Node, Error>) -> (StreamCursor, StreamAction) {
    match item {
        Err(_) => (c, StreamAction::Yield),
        Ok(n) => if !passes(n, q.node_type_filter, range_start(q.time_range), range_end(q.time_range)) {
            (c, StreamAction::Skip)
        } else if c.skipped < q.offset {
            (StreamCursor { skipped: (c.skipped + 1) as usize, ..c }, StreamAction::Skip)
        } else if q.limit matches Some(l) && c.emitted >= l {
            (c, StreamAction::Finish)
        } else {
            (StreamCursor { emitted: (c.emitted + 1) as usize, ..c }, StreamAction::Yield)
        },
    }
}

/// The nodes a streamed query hands out when the store yields the nodes
/// of `s` in turn, starting from cursor `c`.
pub open spec fn stream_run(q: AsyncQueryBuilder, c: StreamCursor, s: Seq<Node>) -> Seq<Node>
    decreases s.len(),
{
    if s.len() == 0 {
        Seq::empty()
    } else {
        let (next, action) = stream_step(q, c, Ok(s[0]));
        match action {
            StreamAction::Finish => Seq::empty(),
            StreamAction::Yield => seq![s[0]] + stream_run(q, next, s.drop_first()),
            StreamAction::Skip => stream_run(q, next, s.drop_first()),
        }
    }
}

/// An item read from a store, by value.
pub open spec fn read_item(item: Result<&Node, &Error>) -> Result<Node, Error> {
    match item {
        Ok(n) => Ok(*n),
        Err(e) => Err(*e),
    }
}

/// A cursor at the start of a stream.
pub open spec fn stream_start() -> StreamCursor {
    StreamCursor { skipped: 0, emitted: 0 }
}

/// Whether the counters of a cursor can move on without overflow.
pub open spec fn cursor_can_advance(q: AsyncQueryBuilder, c: StreamCursor) -> bool {
    q.limit is Some || c.emitted < usize::MAX
}

impl AsyncQueryBuilder {
    /// The cursor a stream starts with.
    pub fn stream_cursor(&self) -> (c: StreamCursor)
        ensures
            c == stream_start(),
    {
        StreamCursor { skipped: 0, emitted: 0 }
    }

    /// Decide what a stream does with the next item from the store, and
    /// where its cursor goes.
    pub fn stream_step(&self, cursor: StreamCursor, item: Result<&Node, &Error>) -> (r: (StreamCursor, StreamAction))
        requires
            cursor_can_advance(*self, cursor),
        ensures
            r == stream_step(*self, cursor, read_item(item)),
    {
        match item {
            Err(_) => (cursor, StreamAction::Yield),
            Ok(n) => {
                let (start, end) = match self.time_range {
                    Some(w) => (Some(w.start), Some(w.end)),
                    None => (None, None),
                };
                if !node_passes(n, self.node_type_filter, start, end) {
                    (cursor, StreamAction::Skip)
                } else if cursor.skipped < self.offset {
                    (StreamCursor { skipped: cursor.skipped + 1, ..cursor }, StreamAction::Skip)
                } else {
                    let full = match self.limit {
                        Some(l) => cursor.emitted >= l,
                        None => false,
                    };
                    if full {
                        (cursor, StreamAction::Finish)
                    } else {
                        (StreamCursor { emitted: cursor.emitted + 1, ..cursor }, StreamAction::Yield)
                    }
                }
            },
        }
    }

    /// Stream the nodes of the query's session in the order the graph
    /// stored them, through the filters, offset and limit. Without a
    /// session nothing is streamed.
    pub fn execute_stream<'a>(&self, graph: &'a MemoryGraph) -> (r: Vec<&'a Node>)
        ensures
            self.session_filter is None ==> r@.len() == 0,
            self.session_filter matches Some(sid) ==> node_refs(r@) == stream_run(*self, stream_start(),
                session_nodes(graph.node_seq(), sid)),
    {
        match self.session_filter {
            None => Vec::new(),
            Some(sid) => {
                let nodes = graph.get_session_nodes(sid);
                let ghost s = node_refs(nodes@);
                let mut out: Vec<&'a Node> = Vec::new();
                let mut cursor = self.stream_cursor();
                let mut i: usize = 0;
                assert(s.skip(0) =~= s);
                assert(node_refs(out@) + stream_run(*self, cursor, s) =~= stream_run(*self, cursor, s));
                while i < nodes.len()
                    invariant_except_break
                        i <= nodes@.len(),
                        s == node_refs(nodes@),
                        cursor.emitted <= i,
                        node_refs(out@) + stream_run(*self, cursor, s.skip(i as int)) == stream_run(*self, stream_start(), s),
                    ensures
                        node_refs(out@) == stream_run(*self, stream_start(), s),
                    decreases nodes@.len() - i,
                {
                    let n = nodes[i];
                    proof { assert(s.skip(i as int)[0] == *n); }
                    let (next, action) = self.stream_step(cursor, Ok(n));
                    let ghost rest = s.skip(i as int);
                    assert(rest.drop_first() =~= s.skip(i + 1));
                    match action {
                        StreamAction::Finish => {
                            assert(node_refs(out@) + Seq::<Node>::empty() =~= node_refs(out@));
                            break;
                        },
                        StreamAction::Skip => {},
                        StreamAction::Yield => {
                            let ghost before = out@;
                            out.push(n);
                            assert(node_refs(out@) =~= node_refs(before).push(*n));
                            assert(node_refs(out@) + stream_run(*self, next, s.skip(i + 1)) =~= node_refs(before)
                                + (seq![*n] + stream_run(*self, next, s.skip(i + 1))));
                        },
                    }
                    cursor = next;
                    i = i + 1;
                }
                proof {
                    if i == nodes@.len() {
                        assert(s.skip(i as int).len() == 0);
                        assert(node_refs(out@) + Seq::<Node>::empty() =~= node_refs(out@));
                    }
                }
                out
            },
        }
    }

    /// How many nodes the query's stream hands out.
    pub fn count(&self, graph: &MemoryGraph) -> (r: usize)
        ensures
            self.session_filter is None ==> r == 0,
            self.session_filter matches Some(sid) ==> r == stream_run(*self, stream_start(),
                session_nodes(graph.node_seq(), sid)).len(),
    {
        let found = self.execute_stream(graph);
        proof {
            if let Some(sid) = self.session_filter {
                assert(node_refs(found@).len() == found@.len());
            }
        }
        found.len()
    }
}

/// What is left of a limit once `emitted` nodes have been handed out.
pub open spec fn limit_left(limit: Option<usize>, emitted: usize) -> Option<nat> {
    match limit {
        Some(l) => Some((l - emitted) as nat),
        None => None,
    }
}

/// Paging a sequence with one more node in front, where the offset is not
/// yet used up, pages the rest with one node less to skip.
proof fn lemma_paged_skip_front(x: Node, f: Seq<Node>, k: nat, limit: Option<nat>)
    requires
        k >= 1,
    ensures
        paged(seq![x] + f, k, limit) == paged(f, (k - 1) as nat, limit),
{
    assert(paged(seq![x] + f, k, limit) =~= paged(f, (k - 1) as nat, limit));
}

/// Paging a sequence from its start with room for at least one node keeps
/// its first node and pages the rest with one place less.
proof fn lemma_paged_keep_front(x: Node, f: Seq<Node>, limit: Option<nat>)
    requires
        limit matches Some(l) ==> l >= 1,
    ensures
        paged(seq![x] + f, 0, limit) == seq![x] + paged(f, 0, match limit {
            Some(l) => Some((l - 1) as nat),
            None => None,
        }),
{
    let lim2 = match limit {
        Some(l) => Some((l - 1) as nat),
        None => None,
    };
    assert(paged(seq![x] + f, 0, limit) =~= seq![x] + paged(f, 0, lim2));
}

proof fn lemma_stream_run_from(q: AsyncQueryBuilder, c: StreamCursor, s: Seq<Node>)
    requires
        c.skipped <= q.offset,
        c.skipped < q.offset ==> c.emitted == 0,
        q.limit matches Some(l) ==> c.emitted <= l,
        q.limit is Some || c.emitted + s.len() <= usize::MAX,
    ensures
        stream_run(q, c, s) == paged(filtered(s, q.node_type_filter, range_start(q.time_range), range_end(q.time_range)),
            (q.offset - c.skipped) as nat, limit_left(q.limit, c.emitted)),
    decreases s.len(),
{
    let nt = q.node_type_filter;
    let st = range_start(q.time_range);
    let en = range_end(q.time_range);
    let pred = |n: Node| passes(n, nt, st, en);
    if s.len() == 0 {
        assert(filtered(s, nt, st, en) =~= Seq::<Node>::empty());
        assert(paged(Seq::<Node>::empty(), (q.offset - c.skipped) as nat, limit_left(q.limit, c.emitted)) =~= Seq::<Node>::empty());
    } else {
        let x = s[0];
        let rest = s.drop_first();
        assert(s =~= seq![x] + rest);
        rest.lemma_filter_prepend(x, pred);
        let (next, action) = stream_step(q, c, Ok(x));
        lemma_stream_run_from(q, next, rest);
        if !passes(x, nt, st, en) {
            assert(filtered(s, nt, st, en) =~= filtered(rest, nt, st, en));
        } else {
            assert(filtered(s, nt, st, en) =~= seq![x] + filtered(rest, nt, st, en));
            if c.skipped < q.offset {
                lemma_paged_skip_front(x, filtered(rest, nt, st, en), (q.offset - c.skipped) as nat, limit_left(q.limit, c.emitted));
            } else if q.limit matches Some(l) && c.emitted >= l {
                assert(paged(filtered(s, nt, st, en), 0, Some(0)) =~= Seq::<Node>::empty());
            } else {
                lemma_paged_keep_front(x, filtered(rest, nt, st, en), limit_left(q.limit, c.emitted));
                assert(limit_left(q.limit, next.emitted) == match limit_left(q.limit, c.emitted) {
                    Some(l) => Some((l - 1) as nat),
                    None => None::<nat>,
                });
            }
        }
    }
}

/// A streamed query hands out exactly the nodes the store yields that pass
/// its filters, in the order the store yields them, from the offset on and
/// at most the limit of them.
pub proof fn lemma_stream_pages_filtered(q: AsyncQueryBuilder, s: Seq<Node>)
    requires
        q.limit is Some || s.len() <= usize::MAX,
    ensures
        stream_run(q, stream_start(), s) == paged(filtered(s, q.node_type_filter, range_start(q.time_range),
            range_end(q.time_range)), q.offset as nat, limit_of(q.limit)),
{
    lemma_stream_run_from(q, stream_start(), s);
    assert(limit_left(q.limit, 0) == limit_of(q.limit));
}

// ===== Traversal =====

/// The node with identifier `id`, if any.
pub open spec fn lookup(s: Seq<Node>, id: NodeId) -> Option<Node> {
    if has_node(s, id) { Some(s[node_index(s, id)]) } else { None }
}

/// Where a conversation thread starts from: the session to read, a node
/// that is missing, or a reason why there is no thread.
pub enum ThreadStart {
    /// The thread is that of this session
    Session(SessionId),
    /// A node on the way is missing
    MissingNode(NodeId),
    /// There is no thread, for this reason
    Failure(Seq<char>),
}

/// The session of the prompt with identifier `pid`.
pub open spec fn prompt_session(s: Seq<Node>, pid: NodeId) -> ThreadStart {
    match lookup(s, pid) {
        None => ThreadStart::MissingNode(pid),
        Some(n) => match n {
            Node::Prompt(p) => ThreadStart::Session(p.session_id),
            _ => ThreadStart::Failure("Response does not point to a prompt"@),
        },
    }
}

/// Where the conversation thread of node `start` comes from: a prompt's
/// session, a response's prompt's session, a session itself, or a tool
/// invocation's response's prompt's session. Agents and templates belong
/// to no conversation.
pub open spec fn thread_start(s: Seq<Node>, start: NodeId) -> ThreadStart {
    match lookup(s, start) {
        None => ThreadStart::MissingNode(start),
        Some(n) => match n {
            Node::Prompt(p) => ThreadStart::Session(p.session_id),
            Node::Response(r) => prompt_session(s, r.prompt_id),
            Node::Session(x) => ThreadStart::Session(x.id),
            Node::ToolInvocation(t) => match lookup(s, t.response_id) {
                None => ThreadStart::MissingNode(t.response_id),
                Some(m) => match m {
                    Node::Response(r) => prompt_session(s, r.prompt_id),
                    _ => ThreadStart::Failure("ToolInvocation does not point to a response"@),
                },
            },
            Node::Agent(_) => ThreadStart::Failure("Cannot get conversation thread for agent nodes"@),
            Node::Template(_) => ThreadStart::Failure("Cannot get conversation thread for template nodes"@),
        },
    }
}

/// Whether a node is a prompt or a response.
pub open spec fn is_exchange(n: Node) -> bool {
    n is Prompt || n is Response
}

/// The conversation thread of a session: its prompts and responses,
/// oldest first.
pub open spec fn thread_of(s: Seq<Node>, sid: SessionId) -> Seq<Node> {
    stable_sorted(session_nodes(s, sid).filter(|n: Node| is_exchange(n)), false)
}

/// The responses reached over RESPONDS_TO edges among `edges`, in edge
/// order; edges whose source is missing or no response are passed over.
pub open spec fn responses_via(s: Seq<Node>, edges: Seq<Edge>) -> Seq<Node>
    decreases edges.len(),
{
    if edges.len() == 0 {
        Seq::empty()
    } else {
        let rest = responses_via(s, edges.drop_last());
        let e = edges.last();
        if e.edge_type == EdgeType::RespondsTo && (lookup(s, e.from) matches Some(n) && n is Response) {
            rest.push(lookup(s, e.from)->0)
        } else {
            rest
        }
    }
}

/// Walks a memory graph.
pub struct GraphTraversal<'a> {
    graph: &'a MemoryGraph,
}

impl<'a> GraphTraversal<'a> {
    /// A traversal of `graph`.
    pub fn new(graph: &'a MemoryGraph) -> (t: Self)
        ensures
            t.graph() == graph,
    {
        GraphTraversal { graph }
    }

    /// The graph walked.
    pub closed spec fn graph(&self) -> &'a MemoryGraph {
        self.graph
    }

    /// The nodes reached from `start` along the direction of the edges, in
    /// breadth-first order: `start` first, each once, and a node no earlier
    /// than any node nearer to `start`.
    pub fn bfs(&self, start: NodeId) -> (r: Result<Vec<NodeId>, Error>)
        ensures
            r matches Ok(ids) && visits_from(self.graph().edge_seq(), start, ids@)
                && breadth_first(self.graph().edge_seq(), start, ids@),
    {
        Ok(walk_from(self.graph, start, true))
    }

    /// The nodes reached from `start` along the direction of the edges, in
    /// depth-first order: `start` first, each once, and each later node
    /// reached from the deepest visited node that still had a successor to
    /// visit.
    pub fn dfs(&self, start: NodeId) -> (r: Result<Vec<NodeId>, Error>)
        ensures
            r matches Ok(ids) && visits_from(self.graph().edge_seq(), start, ids@)
                && depth_first(self.graph().edge_seq(), ids@),
    {
        Ok(walk_from(self.graph, start, false))
    }

    /// The node with identifier `id`, or the error of a missing node.
    fn node(&self, id: NodeId) -> (r: Result<&'a Node, Error>)
        ensures
            r matches Ok(n) ==> lookup(self.graph().node_seq(), id) == Some(*n),
            r matches Err(e) ==> lookup(self.graph().node_seq(), id) is None
                && (e matches Error::NodeNotFound(m) && m@ == uuid_text(id.value)),
    {
        match self.graph.get_node(id) {
            Some(n) => Ok(n),
            None => Err(Error::NodeNotFound(id.to_string())),
        }
    }

    fn session_of_prompt(&self, pid: NodeId) -> (r: Result<SessionId, Error>)
        ensures
            prompt_session(self.graph().node_seq(), pid) matches ThreadStart::Session(sid) ==> r == Ok::<SessionId, Error>(sid),
            prompt_session(self.graph().node_seq(), pid) matches ThreadStart::MissingNode(id) ==>
                (r matches Err(Error::NodeNotFound(m)) && m@ == uuid_text(id.value)),
            prompt_session(self.graph().node_seq(), pid) matches ThreadStart::Failure(f) ==>
                (r matches Err(Error::TraversalError(m)) && m@ == f),
    {
        let n = self.node(pid)?;
        match n {
            Node::Prompt(p) => Ok(p.session_id),
            _ => Err(Error::TraversalError(String::from_str("Response does not point to a prompt"))),
        }
    }

    /// The session whose thread holds node `start`.
    fn thread_session(&self, start: NodeId) -> (r: Result<SessionId, Error>)
        ensures
            thread_start(self.graph().node_seq(), start) matches ThreadStart::Session(sid) ==> r == Ok::<SessionId, Error>(sid),
            thread_start(self.graph().node_seq(), start) matches ThreadStart::MissingNode(id) ==>
                (r matches Err(Error::NodeNotFound(m)) && m@ == uuid_text(id.value)),
            thread_start(self.graph().node_seq(), start) matches ThreadStart::Failure(f) ==>
                (r matches Err(Error::TraversalError(m)) && m@ == f),
    {
        let node = self.node(start)?;
        match node {
            Node::Prompt(p) => Ok(p.session_id),
            Node::Response(r) => self.session_of_prompt(r.prompt_id),
            Node::Session(s) => Ok(s.id),
            Node::ToolInvocation(t) => {
                let response = self.node(t.response_id)?;
                match response {
                    Node::Response(r) => self.session_of_prompt(r.prompt_id),
                    _ => Err(Error::TraversalError(String::from_str("ToolInvocation does not point to a response"))),
                }
            },
            Node::Agent(_) => Err(Error::TraversalError(String::from_str("Cannot get conversation thread for agent nodes"))),
            Node::Template(_) => Err(Error::TraversalError(String::from_str("Cannot get conversation thread for template nodes"))),
        }
    }

    /// The conversation thread that node `start` belongs to: the prompts
    /// and responses of its session, oldest first.
    pub fn get_conversation_thread(&self, start: NodeId) -> (r: Result<Vec<&'a Node>, Error>)
        ensures
            thread_start(self.graph().node_seq(), start) matches ThreadStart::Session(sid) ==>
                (r matches Ok(v) && node_refs(v@) == thread_of(self.graph().node_seq(), sid)),
            thread_start(self.graph().node_seq(), start) matches ThreadStart::MissingNode(id) ==>
                (r matches Err(Error::NodeNotFound(m)) && m@ == uuid_text(id.value)),
            thread_start(self.graph().node_seq(), start) matches ThreadStart::Failure(f) ==>
                (r matches Err(Error::TraversalError(m)) && m@ == f),
    {
        let sid = self.thread_session(start)?;
        let nodes = self.graph.get_session_nodes(sid);
        let ghost sv = node_refs(nodes@);
        let ghost pred = |n: Node| is_exchange(n);
        let mut kept: Vec<&'a Node> = Vec::new();
        let mut i: usize = 0;
        proof { reveal(Seq::filter); }
        assert(sv.take(0) =~= Seq::<Node>::empty());
        while i < nodes.len()
            invariant
                i <= nodes@.len(),
                sv == node_refs(nodes@),
                pred == (|n: Node| is_exchange(n)),
                node_refs(kept@) == sv.take(i as int).filter(pred),
            decreases nodes@.len() - i,
        {
            let n = nodes[i];
            let keep = match n {
                Node::Prompt(_) | Node::Response(_) => true,
                _ => false,
            };
            let ghost before = kept@;
            proof {
                assert(sv.take(i + 1).drop_last() =~= sv.take(i as int));
                assert(sv.take(i + 1).last() == *n);
                reveal(Seq::filter);
            }
            if keep {
                kept.push(n);
                proof { assert(node_refs(kept@) =~= node_refs(before).push(*n)); }
            }
            i = i + 1;
        }
        assert(sv.take(nodes@.len() as int) =~= sv);
        let ghost kv = kept@;
        let sorted = stable_sort(kept, false);
        proof { lemma_sorted_refs(kv, false); }
        Ok(sorted)
    }

    /// The responses to a prompt: the response nodes at the sources of its
    /// incoming RESPONDS_TO edges, in edge order.
    pub fn find_responses(&self, prompt_id: NodeId) -> (r: Vec<&'a Node>)
        ensures
            node_refs(r@) == responses_via(self.graph().node_seq(), incoming(self.graph().edge_seq(), prompt_id)),
            r@.len() == incoming(self.graph().edge_seq(), prompt_id).filter(
                |e: Edge| from_stored_response(self.graph().node_seq(), e)).len(),
    {
        let edges = self.graph.get_incoming_edges(prompt_id);
        let ghost ev = edge_refs(edges@);
        let ghost s = self.graph().node_seq();
        let mut out: Vec<&'a Node> = Vec::new();
        let mut i: usize = 0;
        assert(ev.take(0) =~= Seq::<Edge>::empty());
        while i < edges.len()
            invariant
                i <= edges@.len(),
                ev == edge_refs(edges@),
                s == self.graph().node_seq(),
                node_refs(out@) == responses_via(s, ev.take(i as int)),
            decreases edges@.len() - i,
        {
            let e = edges[i];
            let ghost before = out@;
            proof {
                assert(ev.take(i + 1).drop_last() =~= ev.take(i as int));
                assert(ev.take(i + 1).last() == *e);
            }
            if e.edge_type == EdgeType::RespondsTo {
                match self.node(e.from) {
                    Ok(n) => {
                        match n {
                            Node::Response(_) => {
                                out.push(n);
                                proof { assert(node_refs(out@) =~= node_refs(before).push(*n)); }
                            },
                            _ => {},
                        }
                    },
                    Err(_) => {},
                }
            }
            i = i + 1;
        }
        assert(ev.take(edges@.len() as int) =~= ev);
        proof {
            lemma_responses_via_counts(s, ev);
            assert(node_refs(out@).len() == out@.len());
        }
        out
    }
}

/// A conversation thread is ordered oldest first and holds exactly the
/// prompts and responses of its session.
pub proof fn lemma_thread_ordered(s: Seq<Node>, sid: SessionId)
    ensures
        crate::order::is_ordered(thread_of(s, sid), false),
        thread_of(s, sid).to_multiset() == session_nodes(s, sid).filter(|n: Node| is_exchange(n)).to_multiset(),
{
    crate::order::lemma_stable_sorted(session_nodes(s, sid).filter(|n: Node| is_exchange(n)), false);
}

/// A query gives nodes of the session that pass its filters, newest
/// first, and no more of them than its limit.
pub proof fn lemma_query_result(s: Seq<Node>, node_type: Option<NodeType>, start: Option<Timestamp>, end: Option<Timestamp>,
    offset: nat, limit: Option<nat>)
    ensures
        crate::order::is_ordered(query_result(s, node_type, start, end, offset, limit), true),
        forall|i: int| 0 <= i < query_result(s, node_type, start, end, offset, limit).len() ==>
            #[trigger] filtered(s, node_type, start, end).to_multiset().count(query_result(s, node_type, start, end, offset, limit)[i]) > 0
            && passes(query_result(s, node_type, start, end, offset, limit)[i], node_type, start, end),
        limit matches Some(l) ==> query_result(s, node_type, start, end, offset, limit).len() <= l,
{
    broadcast use vstd::seq_lib::group_to_multiset_ensures;
    let f = filtered(s, node_type, start, end);
    let pred = |n: Node| passes(n, node_type, start, end);
    let sorted = stable_sorted(f, true);
    crate::order::lemma_stable_sorted(f, true);
    let r = query_result(s, node_type, start, end, offset, limit);
    let from = if offset <= sorted.len() { offset as int } else { sorted.len() as int };
    assert forall|i: int| 0 <= i < r.len() implies
        #[trigger] f.to_multiset().count(r[i]) > 0 && passes(r[i], node_type, start, end) by {
        assert(r[i] == sorted[from + i]);
        assert(sorted.contains(sorted[from + i]));
        assert(f.to_multiset().count(r[i]) > 0);
        assert(f.contains(r[i]));
        let j = choose|j: int| 0 <= j < f.len() && f[j] == r[i];
        s.lemma_filter_pred(pred, j);
    }
}

/// Whether a node is of the variant that a node type names.
pub open spec fn is_of_kind(n: Node, t: NodeType) -> bool {
    match t {
        NodeType::Session => n is Session,
        NodeType::Prompt => n is Prompt,
        NodeType::Response => n is Response,
        NodeType::ToolInvocation => n is ToolInvocation,
        NodeType::Agent => n is Agent,
        NodeType::Template => n is Template,
    }
}

/// Filtering by a node type keeps exactly the nodes of that variant, in
/// order: a query for responses gives the session's response nodes.
pub proof fn lemma_type_filter_keeps_variant(s: Seq<Node>, t: NodeType)
    ensures
        filtered(s, Some(t), None, None) == s.filter(|n: Node| is_of_kind(n, t)),
        forall|i: int| 0 <= i < filtered(s, Some(t), None, None).len() ==>
            is_of_kind(#[trigger] filtered(s, Some(t), None, None)[i], t),
{
    assert forall|n: Node| #[trigger] passes(n, Some(t), None, None) == is_of_kind(n, t) by {
        crate::nodes::lemma_node_type_is_variant(n);
    }
    assert((|n: Node| passes(n, Some(t), None, None)) =~= (|n: Node| is_of_kind(n, t)));
    assert forall|i: int| 0 <= i < filtered(s, Some(t), None, None).len() implies
        is_of_kind(#[trigger] filtered(s, Some(t), None, None)[i], t) by {
        s.lemma_filter_pred(|n: Node| is_of_kind(n, t), i);
    }
}

/// Whether an edge is a RESPONDS_TO edge from a stored response node.
pub open spec fn from_stored_response(s: Seq<Node>, e: Edge) -> bool {
    &&& e.edge_type == EdgeType::RespondsTo
    &&& lookup(s, e.from) is Some
    &&& lookup(s, e.from)->0 is Response
}

/// The responses found over a list of edges are one for each RESPONDS_TO
/// edge from a stored response: as many as there are such edges, every
/// such edge's response among them, and nothing else.
pub proof fn lemma_responses_via_counts(s: Seq<Node>, edges: Seq<Edge>)
    ensures
        responses_via(s, edges).len() == edges.filter(|e: Edge| from_stored_response(s, e)).len(),
        forall|j: int| 0 <= j < edges.len() && #[trigger] from_stored_response(s, edges[j]) ==>
            responses_via(s, edges).contains(lookup(s, edges[j].from)->0),
        forall|k: int| 0 <= k < responses_via(s, edges).len() ==> {
            &&& (#[trigger] responses_via(s, edges)[k]) is Response
            &&& exists|j: int| 0 <= j < edges.len() && from_stored_response(s, edges[j])
                && lookup(s, edges[j].from) == Some(responses_via(s, edges)[k])
        },
    decreases edges.len(),
{
    reveal(Seq::filter);
    if edges.len() > 0 {
        let p = edges.drop_last();
        lemma_responses_via_counts(s, p);
        let e = edges.last();
        let rest = responses_via(s, p);
        let r = responses_via(s, edges);
        let took = e.edge_type == EdgeType::RespondsTo && (lookup(s, e.from) matches Some(n) && n is Response);
        assert(took == from_stored_response(s, e));
        assert forall|j: int| 0 <= j < edges.len() && #[trigger] from_stored_response(s, edges[j]) implies
            r.contains(lookup(s, edges[j].from)->0) by {
            if j < p.len() {
                assert(p[j] == edges[j]);
                assert(from_stored_response(s, p[j]));
                let k = choose|k: int| 0 <= k < rest.len() && rest[k] == lookup(s, p[j].from)->0;
                assert(r[k] == rest[k]);
            } else {
                assert(edges[j] == e);
                assert(r[r.len() - 1] == lookup(s, e.from)->0);
            }
        }
        assert forall|k: int| 0 <= k < r.len() implies {
            &&& (#[trigger] r[k]) is Response
            &&& exists|j: int| 0 <= j < edges.len() && from_stored_response(s, edges[j])
                && lookup(s, edges[j].from) == Some(r[k])
        } by {
            if k < rest.len() {
                assert(r[k] == rest[k]);
                assert(rest[k] is Response);
                let j = choose|j: int| 0 <= j < p.len() && from_stored_response(s, p[j]) && lookup(s, p[j].from) == Some(rest[k]);
                assert(edges[j] == p[j]);
            } else {
                let j = edges.len() - 1;
                assert(edges[j] == e);
            }
        }
    }
}

} // verus!

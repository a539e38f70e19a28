//! Counters of graph operations and their latencies.

use vstd::prelude::*;

verus! {

/// One more than `x`, wrapping around at the top, as an atomic counter
/// counts.
pub open spec fn bump(x: usize) -> usize {
    if x == usize::MAX { 0 } else { (x + 1) as usize }
}

/// The sum of two numbers modulo 2^64, as an atomic adder adds.
pub open spec fn wrapping_sum(a: u64, b: u64) -> u64 {
    ((a as int + b as int) % 0x1_0000_0000_0000_0000) as u64
}

fn bumped(x: usize) -> (r: usize)
    ensures
        r == bump(x),
{
    if x == usize::MAX { 0 } else { x + 1 }
}

pub(crate) fn added(a: u64, b: u64) -> (r: u64)
    ensures
        r == wrapping_sum(a, b),
{
    if a <= u64::MAX - b {
        a + b
    } else {
        b - (u64::MAX - a) - 1
    }
}

/// The counters of a metrics collector.
#[derive(Debug, Clone, Copy, PartialEq, Eq, Structural)]
pub struct MetricsTotals {
    /// Nodes created
    pub nodes_created: usize,
    /// Edges created
    pub edges_created: usize,
    /// Prompts submitted
    pub prompts_submitted: usize,
    /// Responses generated
    pub responses_generated: usize,
    /// Tools invoked
    pub tools_invoked: usize,
    /// Queries executed
    pub queries_executed: usize,
    /// Sum of write latencies in microseconds
    pub total_write_latency_us: u64,
    /// Writes timed
    pub write_count: usize,
    /// Sum of read latencies in microseconds
    pub total_read_latency_us: u64,
    /// Reads timed
    pub read_count: usize,
}

/// All counters zero.
pub open spec fn zero_totals() -> MetricsTotals {
    MetricsTotals {
        nodes_created: 0,
        edges_created: 0,
        prompts_submitted: 0,
        responses_generated: 0,
        tools_invoked: 0,
        queries_executed: 0,
        total_write_latency_us: 0,
        write_count: 0,
        total_read_latency_us: 0,
        read_count: 0,
    }
}

/// Collects counts and latencies of graph operations. There is one set of
/// counters per collector: it is not `Clone`, and every part of a program
/// that records into it shares it by reference, so a reset is seen by all.
#[derive(Debug)]
pub struct MemoryGraphMetrics {
    totals: MetricsTotals,
}

impl View for MemoryGraphMetrics {
    type V = MetricsTotals;

    closed spec fn view(&self) -> MetricsTotals {
        self.totals
    }
}

impl MemoryGraphMetrics {
    /// A collector with every counter at zero.
    pub fn new() -> (m: Self)
        ensures
            m@ == zero_totals(),
    {
        MemoryGraphMetrics {
            totals: MetricsTotals {
                nodes_created: 0,
                edges_created: 0,
                prompts_submitted: 0,
                responses_generated: 0,
                tools_invoked: 0,
                queries_executed: 0,
                total_write_latency_us: 0,
                write_count: 0,
                total_read_latency_us: 0,
                read_count: 0,
            },
        }
    }

    /// Count a node creation.
    pub fn record_node_created(&mut self)
        ensures
            final(self)@ == (MetricsTotals { nodes_created: bump(old(self)@.nodes_created), ..old(self)@ }),
            final(self)@ == after_nodes_created(old(self)@, 1),
    {
        self.totals.nodes_created = bumped(self.totals.nodes_created);
        proof {
            assert(after_nodes_created(old(self)@, 0) == old(self)@);
        }
    }

    /// Count an edge creation.
    pub fn record_edge_created(&mut self)
        ensures
            final(self)@ == (MetricsTotals { edges_created: bump(old(self)@.edges_created), ..old(self)@ }),
    {
        self.totals.edges_created = bumped(self.totals.edges_created);
    }

    /// Count a prompt submission.
    pub fn record_prompt_submitted(&mut self)
        ensures
            final(self)@ == (MetricsTotals { prompts_submitted: bump(old(self)@.prompts_submitted), ..old(self)@ }),
    {
        self.totals.prompts_submitted = bumped(self.totals.prompts_submitted);
    }

    /// Count a generated response.
    pub fn record_response_generated(&mut self)
        ensures
            final(self)@ == (MetricsTotals { responses_generated: bump(old(self)@.responses_generated), ..old(self)@ }),
    {
        self.totals.responses_generated = bumped(self.totals.responses_generated);
    }

    /// Count a tool invocation.
    pub fn record_tool_invoked(&mut self)
        ensures
            final(self)@ == (MetricsTotals { tools_invoked: bump(old(self)@.tools_invoked), ..old(self)@ }),
    {
        self.totals.tools_invoked = bumped(self.totals.tools_invoked);
    }

    /// Count a query execution.
    pub fn record_query_executed(&mut self)
        ensures
            final(self)@ == (MetricsTotals { queries_executed: bump(old(self)@.queries_executed), ..old(self)@ }),
    {
        self.totals.queries_executed = bumped(self.totals.queries_executed);
    }

    /// Record the latency of a write, in microseconds.
    pub fn record_write_latency_us(&mut self, latency_us: u64)
        ensures
            final(self)@ == (MetricsTotals {
                total_write_latency_us: wrapping_sum(old(self)@.total_write_latency_us, latency_us),
                write_count: bump(old(self)@.write_count),
                ..old(self)@
            }),
    {
        self.totals.total_write_latency_us = added(self.totals.total_write_latency_us, latency_us);
        self.totals.write_count = bumped(self.totals.write_count);
    }

    /// Record the latency of a read, in microseconds.
    pub fn record_read_latency_us(&mut self, latency_us: u64)
        ensures
            final(self)@ == (MetricsTotals {
                total_read_latency_us: wrapping_sum(old(self)@.total_read_latency_us, latency_us),
                read_count: bump(old(self)@.read_count),
                ..old(self)@
            }),
    {
        self.totals.total_read_latency_us = added(self.totals.total_read_latency_us, latency_us);
        self.totals.read_count = bumped(self.totals.read_count);
    }

    /// The counters now.
    pub fn totals(&self) -> (t: MetricsTotals)
        ensures
            t == self@,
    {
        self.totals
    }

    /// Set every counter back to zero.
    pub fn reset(&mut self)
        ensures
            final(self)@ == zero_totals(),
    {
        self.totals = MetricsTotals {
            nodes_created: 0,
            edges_created: 0,
            prompts_submitted: 0,
            responses_generated: 0,
            tools_invoked: 0,
            queries_executed: 0,
            total_write_latency_us: 0,
            write_count: 0,
            total_read_latency_us: 0,
            read_count: 0,
        };
    }
}

impl Default for MemoryGraphMetrics {
    /// A collector with every counter at zero.
    fn default() -> (m: Self)
        ensures
            m@ == zero_totals(),
    {
        MemoryGraphMetrics::new()
    }
}

/// The counters after `n` node creations have been counted, one after
/// another, starting from `t`.
pub open spec fn after_nodes_created(t: MetricsTotals, n: nat) -> MetricsTotals
    decreases n,
{
    if n == 0 {
        t
    } else {
        let prev = after_nodes_created(t, (n - 1) as nat);
        MetricsTotals { nodes_created: bump(prev.nodes_created), ..prev }
    }
}

/// Counting `n` node creations raises the node counter by `n`, modulo the
/// counter's range as an atomic counter wraps, and leaves every other
/// counter as it was: no count is lost.
pub proof fn lemma_nodes_created_count(t: MetricsTotals, n: nat)
    ensures
        after_nodes_created(t, n).nodes_created == (t.nodes_created + n) % (usize::MAX as int + 1),
        after_nodes_created(t, n) == (MetricsTotals { nodes_created: after_nodes_created(t, n).nodes_created, ..t }),
    decreases n,
{
    let m = usize::MAX as int + 1;
    if n == 0 {
        vstd::arithmetic::div_mod::lemma_small_mod(t.nodes_created as nat, m as nat);
    } else {
        lemma_nodes_created_count(t, (n - 1) as nat);
        let a = after_nodes_created(t, (n - 1) as nat).nodes_created;
        assert(a == (t.nodes_created + n - 1) % m);
        vstd::arithmetic::div_mod::lemma_add_mod_noop(t.nodes_created + n - 1, 1, m);
        vstd::arithmetic::div_mod::lemma_small_mod(1, m as nat);
        assert((a + 1) % m == (t.nodes_created + n) % m);
        if a == usize::MAX {
            vstd::arithmetic::div_mod::lemma_mod_self_0(m);
        } else {
            vstd::arithmetic::div_mod::lemma_small_mod((a + 1) as nat, m as nat);
        }
    }
}

} // verus!

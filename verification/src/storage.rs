//! Storage settings and statistics.

use vstd::prelude::*;

verus! {

/// How graph entities are encoded for storage.
#[derive(Debug, Clone, Copy, PartialEq, Eq, Structural)]
pub enum SerializationFormat {
    /// JSON (human-readable, slower)
    Json,
    /// MessagePack (binary, faster)
    MessagePack,
    /// Bincode (binary, fastest)
    Bincode,
}

/// Encodes and decodes graph entities in one format.
#[derive(Debug, Clone, Copy, PartialEq, Eq, Structural)]
pub struct Serializer {
    /// The format used
    pub format: SerializationFormat,
}

impl Serializer {
    /// A serializer for a format.
    pub fn new(format: SerializationFormat) -> (s: Self)
        ensures
            s.format == format,
    {
        Serializer { format }
    }
}

impl Default for Serializer {
    /// MessagePack.
    fn default() -> (s: Self)
        ensures
            s.format == SerializationFormat::MessagePack,
    {
        Serializer::new(SerializationFormat::MessagePack)
    }
}

/// Sizes and hit counts of the storage caches.
#[derive(Debug, Clone, Copy, PartialEq, Eq, Structural)]
pub struct CacheStats {
    /// Nodes cached
    pub node_cache_size: u64,
    /// Edges cached
    pub edge_cache_size: u64,
    /// Node cache hits
    pub node_cache_hits: u64,
    /// Node cache misses
    pub node_cache_misses: u64,
    /// Edge cache hits
    pub edge_cache_hits: u64,
    /// Edge cache misses
    pub edge_cache_misses: u64,
}

impl CacheStats {
    /// The statistics of caches holding `node_entries` nodes and
    /// `edge_entries` edges; hits and misses are not tracked.
    pub fn with_sizes(node_entries: u64, edge_entries: u64) -> (s: Self)
        ensures
            s == (CacheStats {
                node_cache_size: node_entries,
                edge_cache_size: edge_entries,
                node_cache_hits: 0,
                node_cache_misses: 0,
                edge_cache_hits: 0,
                edge_cache_misses: 0,
            }),
    {
        CacheStats {
            node_cache_size: node_entries,
            edge_cache_size: edge_entries,
            node_cache_hits: 0,
            node_cache_misses: 0,
            edge_cache_hits: 0,
            edge_cache_misses: 0,
        }
    }
}

/// Counts of what a store holds.
#[derive(Debug, Clone, Copy, PartialEq, Eq, Structural)]
pub struct StorageStats {
    /// Total number of nodes
    pub node_count: u64,
    /// Total number of edges
    pub edge_count: u64,
    /// Total storage size in bytes
    pub storage_bytes: u64,
    /// Number of sessions
    pub session_count: u64,
}

} // verus!

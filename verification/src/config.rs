//! Configuration for the memory graph.

use vstd::prelude::*;

verus! {

/// Highest compression level the storage engine accepts.
pub const MAX_COMPRESSION_LEVEL: u8 = 9;

/// Configuration for a memory graph.
#[derive(Debug, Clone)]
pub struct Config {
    /// Path to the database directory
    pub path: String,
    /// Cache size in megabytes
    pub cache_size_mb: usize,
    /// Enable write-ahead logging for durability
    pub enable_wal: bool,
    /// Compression level (0-9, 0 = no compression)
    pub compression_level: u8,
    /// Flush interval in milliseconds (0 = sync every write)
    pub flush_interval_ms: u64,
}

/// The compression level that `with_compression` keeps for a requested level.
pub open spec fn clamp_compression(level: u8) -> u8 {
    if level > MAX_COMPRESSION_LEVEL { MAX_COMPRESSION_LEVEL } else { level }
}

impl Config {
    /// Create a configuration for the database at `path`, with the default
    /// cache size, write-ahead logging on, compression level 3 and a one
    /// second flush interval.
    pub fn new(path: &str) -> (c: Self)
        ensures
            c.path@ == path@,
            c.cache_size_mb == 100,
            c.enable_wal,
            c.compression_level == 3,
            c.flush_interval_ms == 1000,
    {
        Config {
            path: String::from_str(path),
            cache_size_mb: 100,
            enable_wal: true,
            compression_level: 3,
            flush_interval_ms: 1000,
        }
    }

    /// Set the cache size.
    pub fn with_cache_size(self, size_mb: usize) -> (c: Self)
        ensures
            c == (Config { cache_size_mb: size_mb, ..self }),
    {
        Config { cache_size_mb: size_mb, ..self }
    }

    /// Enable or disable write-ahead logging.
    pub fn with_wal(self, enable: bool) -> (c: Self)
        ensures
            c == (Config { enable_wal: enable, ..self }),
    {
        Config { enable_wal: enable, ..self }
    }

    /// Set the compression level; levels above 9 are clamped to 9.
    pub fn with_compression(self, level: u8) -> (c: Self)
        ensures
            c == (Config { compression_level: clamp_compression(level), ..self }),
            c.compression_level <= MAX_COMPRESSION_LEVEL,
    {
        let level = if level > MAX_COMPRESSION_LEVEL { MAX_COMPRESSION_LEVEL } else { level };
        Config { compression_level: level, ..self }
    }

    /// Set the flush interval in milliseconds.
    pub fn with_flush_interval(self, interval_ms: u64) -> (c: Self)
        ensures
            c == (Config { flush_interval_ms: interval_ms, ..self }),
    {
        Config { flush_interval_ms: interval_ms, ..self }
    }
}

impl Default for Config {
    /// The default configuration stores the graph under `./data/graph.db`.
    fn default() -> (c: Self)
        ensures
            c.path@ == "./data/graph.db"@,
            c.cache_size_mb == 100,
            c.enable_wal,
            c.compression_level == 3,
            c.flush_interval_ms == 1000,
    {
        Config::new("./data/graph.db")
    }
}

} // verus!

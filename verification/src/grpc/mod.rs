//! The gRPC surface of the memory graph: wire messages, conversions between
//! them and the graph's types, request validation and service settings.

pub mod proto;
pub mod converters;
pub mod handlers;
pub mod service;

use vstd::prelude::*;

verus! {

/// Default port of the gRPC server.
pub const DEFAULT_GRPC_PORT: u16 = 50051;

/// Default port of the metrics endpoint.
pub const DEFAULT_METRICS_PORT: u16 = 9090;

/// Most concurrent streams per connection.
pub const MAX_CONCURRENT_STREAMS: u32 = 100;

/// Default request timeout in milliseconds.
pub const DEFAULT_REQUEST_TIMEOUT_MS: u64 = 30_000;

/// Largest message size in bytes.
pub const MAX_MESSAGE_SIZE: usize = 104_857_600;

} // verus!

//! Graph-based context tracking and prompt lineage for LLM systems.
//!
//! The crate models conversation sessions, prompts, responses, tools, agents and
//! templates as nodes of a typed graph, together with the configuration and
//! bookkeeping types that surround the graph engine.

pub mod config;
pub mod text;
pub mod props;
pub mod ids;
pub mod json;
pub mod edges;
pub mod plugin;
pub mod nodes;
pub mod order;
pub mod error;
pub mod graph;
pub mod query;
pub mod grpc;
pub mod integrations;
pub mod clients;
pub mod observatory;
pub mod storage;
pub mod cli;
pub mod traversal;

//! The error type of the memory graph.

use vstd::prelude::*;
use crate::text::decimal;

verus! {

/// Errors of memory graph operations.
#[derive(Debug)]
pub enum Error {
    /// Node not found
    NodeNotFound(String),
    /// Edge not found
    EdgeNotFound(String),
    /// Session not found
    SessionNotFound(String),
    /// Template not found
    TemplateNotFound(String),
    /// Agent not found
    AgentNotFound(String),
    /// Node already exists
    NodeAlreadyExists(String),
    /// Edge already exists
    EdgeAlreadyExists(String),
    /// Invalid node type
    InvalidNodeType(String),
    /// Invalid edge type
    InvalidEdgeType(String),
    /// Validation error
    ValidationError(String),
    /// Serialization error
    SerializationError(String),
    /// Deserialization error
    DeserializationError(String),
    /// Storage error
    Storage(String),
    /// Storage error (alias)
    StorageError(String),
    /// Runtime error
    RuntimeError(String),
    /// Configuration error
    ConfigError(String),
    /// I/O error
    IoError(String),
    /// Timeout, after the given number of milliseconds
    Timeout(u64),
    /// Plugin error
    PluginError(String),
    /// Integration error
    IntegrationError(String),
    /// gRPC error
    GrpcError(String),
    /// Query error
    QueryError(String),
    /// Migration error
    MigrationError(String),
    /// Graph traversal error
    TraversalError(String),
    /// Prometheus metrics error
    PrometheusError(String),
    /// Other error
    Other(String),
    /// A request carried an invalid value
    InvalidInput(String),
    /// A requested entity does not exist
    NotFound(String),
}

/// The message of an error.
pub open spec fn error_text(e: &Error) -> Seq<char> {
    match e {
        Error::NodeNotFound(m) => "Node not found: "@ + m@,
        Error::EdgeNotFound(m) => "Edge not found: "@ + m@,
        Error::SessionNotFound(m) => "Session not found: "@ + m@,
        Error::TemplateNotFound(m) => "Template not found: "@ + m@,
        Error::AgentNotFound(m) => "Agent not found: "@ + m@,
        Error::NodeAlreadyExists(m) => "Node already exists: "@ + m@,
        Error::EdgeAlreadyExists(m) => "Edge already exists: "@ + m@,
        Error::InvalidNodeType(m) => "Invalid node type: "@ + m@,
        Error::InvalidEdgeType(m) => "Invalid edge type: "@ + m@,
        Error::ValidationError(m) => "Validation error: "@ + m@,
        Error::SerializationError(m) => "Serialization error: "@ + m@,
        Error::DeserializationError(m) => "Deserialization error: "@ + m@,
        Error::Storage(m) => "Storage error: "@ + m@,
        Error::StorageError(m) => "Storage error: "@ + m@,
        Error::RuntimeError(m) => "Runtime error: "@ + m@,
        Error::ConfigError(m) => "Configuration error: "@ + m@,
        Error::IoError(m) => "I/O error: "@ + m@,
        Error::Timeout(ms) => "Operation timed out after "@ + decimal(*ms as nat) + "ms"@,
        Error::PluginError(m) => "Plugin error: "@ + m@,
        Error::IntegrationError(m) => "Integration error: "@ + m@,
        Error::GrpcError(m) => "gRPC error: "@ + m@,
        Error::QueryError(m) => "Query error: "@ + m@,
        Error::MigrationError(m) => "Migration error: "@ + m@,
        Error::TraversalError(m) => "Graph traversal error: "@ + m@,
        Error::PrometheusError(m) => "Prometheus error: "@ + m@,
        Error::Other(m) => "Other error: "@ + m@,
        Error::InvalidInput(m) => "Invalid input: "@ + m@,
        Error::NotFound(m) => "Not found: "@ + m@,
    }
}

impl Error {
    /// The error's message.
    pub fn to_string(&self) -> (s: String)
        ensures
            s@ == error_text(self),
    {
        let (prefix, detail): (&str, &str) = match self {
            Error::NodeNotFound(m) => ("Node not found: ", m.as_str()),
            Error::EdgeNotFound(m) => ("Edge not found: ", m.as_str()),
            Error::SessionNotFound(m) => ("Session not found: ", m.as_str()),
            Error::TemplateNotFound(m) => ("Template not found: ", m.as_str()),
            Error::AgentNotFound(m) => ("Agent not found: ", m.as_str()),
            Error::NodeAlreadyExists(m) => ("Node already exists: ", m.as_str()),
            Error::EdgeAlreadyExists(m) => ("Edge already exists: ", m.as_str()),
            Error::InvalidNodeType(m) => ("Invalid node type: ", m.as_str()),
            Error::InvalidEdgeType(m) => ("Invalid edge type: ", m.as_str()),
            Error::ValidationError(m) => ("Validation error: ", m.as_str()),
            Error::SerializationError(m) => ("Serialization error: ", m.as_str()),
            Error::DeserializationError(m) => ("Deserialization error: ", m.as_str()),
            Error::Storage(m) => ("Storage error: ", m.as_str()),
            Error::StorageError(m) => ("Storage error: ", m.as_str()),
            Error::RuntimeError(m) => ("Runtime error: ", m.as_str()),
            Error::ConfigError(m) => ("Configuration error: ", m.as_str()),
            Error::IoError(m) => ("I/O error: ", m.as_str()),
            Error::Timeout(ms) => {
                let mut s = String::from_str("Operation timed out after ");
                let n = crate::text::u64_to_string(*ms);
                s.append(n.as_str());
                s.append("ms");
                return s;
            },
            Error::PluginError(m) => ("Plugin error: ", m.as_str()),
            Error::IntegrationError(m) => ("Integration error: ", m.as_str()),
            Error::GrpcError(m) => ("gRPC error: ", m.as_str()),
            Error::QueryError(m) => ("Query error: ", m.as_str()),
            Error::MigrationError(m) => ("Migration error: ", m.as_str()),
            Error::TraversalError(m) => ("Graph traversal error: ", m.as_str()),
            Error::PrometheusError(m) => ("Prometheus error: ", m.as_str()),
            Error::Other(m) => ("Other error: ", m.as_str()),
            Error::InvalidInput(m) => ("Invalid input: ", m.as_str()),
            Error::NotFound(m) => ("Not found: ", m.as_str()),
        };
        let mut s = String::from_str(prefix);
        s.append(detail);
        s
    }
}

} // verus!

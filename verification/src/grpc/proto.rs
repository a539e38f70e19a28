//! Wire messages of the memory graph service.

use vstd::prelude::*;
use crate::props::PropertyMap;

verus! {

/// Wire number of an unspecified node type.
pub const NODE_TYPE_UNSPECIFIED: i32 = 0;
/// Wire number of the session node type.
pub const NODE_TYPE_SESSION: i32 = 1;
/// Wire number of the prompt node type.
pub const NODE_TYPE_PROMPT: i32 = 2;
/// Wire number of the response node type.
pub const NODE_TYPE_RESPONSE: i32 = 3;
/// Wire number of the tool invocation node type.
pub const NODE_TYPE_TOOL_INVOCATION: i32 = 4;
/// Wire number of the agent node type.
pub const NODE_TYPE_AGENT: i32 = 5;
/// Wire number of the template node type.
pub const NODE_TYPE_TEMPLATE: i32 = 6;

/// Wire number of an unspecified edge type.
pub const EDGE_TYPE_UNSPECIFIED: i32 = 0;
/// Wire number of the "belongs to" edge type.
pub const EDGE_TYPE_BELONGS_TO: i32 = 1;
/// Wire number of the "responds to" edge type.
pub const EDGE_TYPE_RESPONDS_TO: i32 = 2;
/// Wire number of the "follows" edge type.
pub const EDGE_TYPE_FOLLOWS: i32 = 3;
/// Wire number of the "invokes" edge type.
pub const EDGE_TYPE_INVOKES: i32 = 4;
/// Wire number of the "handled by" edge type.
pub const EDGE_TYPE_HANDLED_BY: i32 = 5;
/// Wire number of the "instantiates" edge type.
pub const EDGE_TYPE_INSTANTIATES: i32 = 6;
/// Wire number of the "inherits" edge type.
pub const EDGE_TYPE_INHERITS: i32 = 7;
/// Wire number of the "transfers to" edge type.
pub const EDGE_TYPE_TRANSFERS_TO: i32 = 8;
/// Wire number of the "references" edge type.
pub const EDGE_TYPE_REFERENCES: i32 = 9;

/// A point in time on the wire.
#[derive(Debug, Clone, Copy, PartialEq, Eq, Structural)]
pub struct Timestamp {
    /// Seconds since the Unix epoch
    pub seconds: i64,
    /// Nanoseconds within the second
    pub nanos: i32,
}

/// A session on the wire.
#[derive(Debug)]
pub struct Session {
    pub id: String,
    pub created_at: Option<Timestamp>,
    pub updated_at: Option<Timestamp>,
    pub metadata: PropertyMap,
    pub is_active: bool,
}

/// Prompt metadata on the wire.
#[derive(Debug)]
pub struct PromptMetadata {
    pub model: String,
    /// Sampling temperature, as the bits of an `f32`
    pub temperature_bits: u32,
    pub max_tokens: Option<i32>,
    pub tools_available: Vec<String>,
    pub custom: PropertyMap,
}

/// Response metadata on the wire.
#[derive(Debug)]
pub struct ResponseMetadata {
    pub model: String,
    pub finish_reason: String,
    pub latency_ms: i64,
    pub custom: PropertyMap,
}

/// Token usage on the wire.
#[derive(Debug, Clone, Copy, PartialEq, Eq, Structural)]
pub struct TokenUsage {
    pub prompt_tokens: i64,
    pub completion_tokens: i64,
    pub total_tokens: i64,
}

/// A prompt on the wire.
#[derive(Debug)]
pub struct PromptNode {
    pub id: String,
    pub session_id: String,
    pub content: String,
    pub timestamp: Option<Timestamp>,
    pub metadata: Option<PromptMetadata>,
}

/// A response on the wire.
#[derive(Debug)]
pub struct ResponseNode {
    pub id: String,
    pub prompt_id: String,
    pub content: String,
    pub timestamp: Option<Timestamp>,
    pub token_usage: Option<TokenUsage>,
    pub metadata: Option<ResponseMetadata>,
}

/// A tool invocation on the wire.
#[derive(Debug)]
pub struct ToolInvocationNode {
    pub id: String,
    pub response_id: String,
    pub tool_name: String,
    pub parameters: String,
    pub status: String,
    pub result: Option<String>,
    pub error: Option<String>,
    pub duration_ms: i64,
    pub retry_count: i32,
    pub timestamp: Option<Timestamp>,
    pub metadata: PropertyMap,
}

/// An agent on the wire.
#[derive(Debug)]
pub struct AgentNode {
    pub id: String,
    pub name: String,
    pub role: String,
    pub capabilities: Vec<String>,
    pub status: String,
    pub created_at: Option<Timestamp>,
    pub metadata: PropertyMap,
}

/// A template variable on the wire.
#[derive(Debug)]
pub struct VariableSpec {
    pub name: String,
    pub type_hint: String,
    pub required: bool,
    pub default_value: Option<String>,
    pub validation_pattern: Option<String>,
    pub description: String,
}

/// A template on the wire.
#[derive(Debug)]
pub struct TemplateNode {
    pub id: String,
    pub name: String,
    pub template_text: String,
    pub variables: Vec<VariableSpec>,
    pub version: String,
    pub usage_count: i64,
    pub created_at: Option<Timestamp>,
    pub metadata: PropertyMap,
}

/// The data of a node on the wire.
#[derive(Debug)]
pub enum NodeData {
    Prompt(PromptNode),
    Response(ResponseNode),
    ToolInvocation(ToolInvocationNode),
    Agent(AgentNode),
    Template(TemplateNode),
}

/// A node on the wire.
#[derive(Debug)]
pub struct Node {
    pub id: String,
    pub node_type: i32,
    pub created_at: Option<Timestamp>,
    pub node_data: Option<NodeData>,
}

/// An edge on the wire.
#[derive(Debug)]
pub struct Edge {
    pub id: String,
    pub from_node_id: String,
    pub to_node_id: String,
    pub edge_type: i32,
    pub created_at: Option<Timestamp>,
    pub properties: PropertyMap,
}

/// A request to create a session.
#[derive(Debug)]
pub struct CreateSessionRequest {
    pub metadata: PropertyMap,
}

/// A request to add a prompt.
#[derive(Debug)]
pub struct AddPromptRequest {
    pub session_id: String,
    pub content: String,
    pub metadata: Option<PromptMetadata>,
}

/// A request to add a response.
#[derive(Debug)]
pub struct AddResponseRequest {
    pub prompt_id: String,
    pub content: String,
    pub token_usage: Option<TokenUsage>,
    pub metadata: Option<ResponseMetadata>,
}

/// A request for a session.
#[derive(Debug)]
pub struct GetSessionRequest {
    pub session_id: String,
}

/// A request for a node.
#[derive(Debug)]
pub struct GetNodeRequest {
    pub node_id: String,
}

/// A request for several nodes.
#[derive(Debug)]
pub struct BatchGetNodesRequest {
    pub node_ids: Vec<String>,
}

/// The nodes found for a batch request.
#[derive(Debug)]
pub struct BatchGetNodesResponse {
    pub nodes: Vec<Node>,
}

/// Edge direction: unspecified (outgoing).
pub const EDGE_DIRECTION_UNSPECIFIED: i32 = 0;
/// Edge direction: edges leaving the node.
pub const EDGE_DIRECTION_OUTGOING: i32 = 1;
/// Edge direction: edges entering the node.
pub const EDGE_DIRECTION_INCOMING: i32 = 2;
/// Edge direction: both.
pub const EDGE_DIRECTION_BOTH: i32 = 3;

/// A request for the edges of a node.
#[derive(Debug)]
pub struct GetEdgesRequest {
    pub node_id: String,
    pub direction: Option<i32>,
}

/// The edges of a node.
#[derive(Debug)]
pub struct GetEdgesResponse {
    pub edges: Vec<Edge>,
}

/// A query request.
#[derive(Debug)]
pub struct QueryRequest {
    pub session_id: Option<String>,
    pub node_type: Option<i32>,
    pub limit: i64,
    pub offset: i64,
}

/// The status codes of a failed call.
#[derive(Debug, Clone, Copy, PartialEq, Eq, Structural)]
pub enum Code {
    /// The entity does not exist
    NotFound,
    /// The request carried an invalid value
    InvalidArgument,
    /// The deadline passed
    DeadlineExceeded,
    /// The server failed
    Internal,
}

/// The status of a failed call: a code and a message.
#[derive(Debug)]
pub struct Status {
    pub code: Code,
    pub message: String,
}

} // verus!

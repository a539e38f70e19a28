//! Conversions between wire messages and the memory graph's types.

use vstd::prelude::*;
use crate::edges::{Edge, EdgeType};
use crate::error::{Error, error_text};
use crate::grpc::proto;
use crate::grpc::proto::{Code, Status};
use crate::ids::{NodeId, SessionId, Timestamp, uuid_parsed, uuid_text};
use crate::nodes::{
    AgentNode, ConversationSession, Node, NodeType, PromptMetadata, PromptNode, PromptTemplate,
    ResponseMetadata, ResponseNode, TokenUsage, ToolInvocation, VariableSpec, agent_status_text,
    version_text,
};
use crate::text::{decimal, signed_decimal};

verus! {

// ===== Errors =====

/// The status code an error is reported with.
pub open spec fn status_code(e: &Error) -> Code {
    match e {
        Error::NotFound(_) | Error::SessionNotFound(_) | Error::NodeNotFound(_) => Code::NotFound,
        Error::InvalidInput(_) => Code::InvalidArgument,
        Error::Timeout(_) => Code::DeadlineExceeded,
        _ => Code::Internal,
    }
}

/// The status message an error is reported with.
pub open spec fn status_text(e: &Error) -> Seq<char> {
    match e {
        Error::NotFound(m) => m@,
        Error::InvalidInput(m) => m@,
        Error::Storage(m) => "Storage error: "@ + m@,
        Error::SerializationError(m) => "Serialization error: "@ + m@,
        Error::SessionNotFound(m) => "Session not found: "@ + m@,
        Error::NodeNotFound(m) => "Node not found: "@ + m@,
        Error::IoError(m) => "IO error: "@ + m@,
        Error::Other(m) => m@,
        _ => error_text(e),
    }
}

/// The status an error is reported with.
pub fn error_to_status(err: Error) -> (s: Status)
    ensures
        s.code == status_code(&err),
        s.message@ == status_text(&err),
{
    let code = match &err {
        Error::NotFound(_) | Error::SessionNotFound(_) | Error::NodeNotFound(_) => Code::NotFound,
        Error::InvalidInput(_) => Code::InvalidArgument,
        Error::Timeout(_) => Code::DeadlineExceeded,
        _ => Code::Internal,
    };
    let message = match err {
        Error::NotFound(m) => m,
        Error::InvalidInput(m) => m,
        Error::Storage(m) => prefixed("Storage error: ", m.as_str()),
        Error::SerializationError(m) => prefixed("Serialization error: ", m.as_str()),
        Error::SessionNotFound(m) => prefixed("Session not found: ", m.as_str()),
        Error::NodeNotFound(m) => prefixed("Node not found: ", m.as_str()),
        Error::IoError(m) => prefixed("IO error: ", m.as_str()),
        Error::Other(m) => m,
        other => other.to_string(),
    };
    Status { code, message }
}

fn prefixed(prefix: &str, text: &str) -> (s: String)
    ensures
        s@ == prefix@ + text@,
{
    let mut s = String::from_str(prefix);
    s.append(text);
    s
}

/// A result whose error is reported as a status.
pub fn result_to_status<T>(result: Result<T, Error>) -> (r: Result<T, Status>)
    ensures
        result matches Ok(v) ==> r == Ok::<T, Status>(v),
        result matches Err(e) ==> (r matches Err(s) && s.code == status_code(&e) && s.message@ == status_text(&e)),
{
    match result {
        Ok(v) => Ok(v),
        Err(e) => Err(error_to_status(e)),
    }
}

// ===== Time =====

/// The wire form of a point in time.
pub open spec fn proto_time(t: Timestamp) -> proto::Timestamp {
    proto::Timestamp { seconds: t.seconds, nanos: t.nanos as i32 }
}

/// The first second chrono can represent: -262143-01-01T00:00:00Z.
pub const MIN_UTC_SECONDS: i64 = -8_334_601_228_800;

/// The last whole second chrono can represent: +262142-12-31T23:59:59Z.
pub const MAX_UTC_SECONDS: i64 = 8_210_266_876_799;

/// Whether chrono can represent the UTC time `seconds` after the epoch plus
/// `nanos`: the day lies in chrono's years -262143 to 262142, the
/// nanoseconds are below two seconds, and a second's worth or more of them
/// (a leap second) only at the last second of a minute.
pub open spec fn utc_representable(seconds: i64, nanos: u32) -> bool {
    &&& MIN_UTC_SECONDS <= seconds <= MAX_UTC_SECONDS
    &&& nanos < 2_000_000_000
    &&& nanos >= 1_000_000_000 ==> seconds % 60 == 59
}

/// Whether chrono's `DateTime::<Utc>::from_timestamp` accepts a time.
///
/// Trusted: the answer is `utc_representable` of the arguments, as chrono's
/// source shows: the day number must give a date within `NaiveDate`'s
/// years (`MIN_YEAR` to `MAX_YEAR`), and `NaiveTime` takes nanoseconds
/// below two seconds, at or above one second only when the second of the
/// minute is 59.
#[verifier::external_body]
fn chrono_accepts(seconds: i64, nanos: u32) -> (r: bool)
    ensures
        r == utc_representable(seconds, nanos),
{
    chrono::DateTime::from_timestamp(seconds, nanos).is_some()
}

/// The wire form of a point in time.
pub fn datetime_to_proto(t: Timestamp) -> (r: proto::Timestamp)
    ensures
        r == proto_time(t),
{
    proto::Timestamp { seconds: t.seconds, nanos: t.nanos as i32 }
}

/// The point in time of a wire time: an error when chrono cannot
/// represent it.
pub fn proto_to_datetime(ts: proto::Timestamp) -> (r: Result<Timestamp, Error>)
    ensures
        r is Ok <==> utc_representable(ts.seconds, ts.nanos as u32),
        r matches Ok(t) ==> t == (Timestamp { seconds: ts.seconds, nanos: ts.nanos as u32 }),
        r matches Err(e) ==> (e matches Error::InvalidInput(m) && m@ == "Invalid timestamp"@),
{
    let nanos = ts.nanos as u32;
    if chrono_accepts(ts.seconds, nanos) {
        Ok(Timestamp { seconds: ts.seconds, nanos })
    } else {
        Err(Error::InvalidInput(String::from_str("Invalid timestamp")))
    }
}

/// The point in time of an optional wire time: an error when it is
/// missing or chrono cannot represent it.
pub fn optional_proto_to_datetime(ts: Option<proto::Timestamp>) -> (r: Result<Timestamp, Error>)
    ensures
        ts is None ==> (r matches Err(Error::InvalidInput(m)) && m@ == "Missing timestamp"@),
        ts matches Some(t) ==> ({
            &&& r is Ok <==> utc_representable(t.seconds, t.nanos as u32)
            &&& r matches Ok(x) ==> x == (Timestamp { seconds: t.seconds, nanos: t.nanos as u32 })
            &&& r matches Err(e) ==> (e matches Error::InvalidInput(m) && m@ == "Invalid timestamp"@)
        }),
{
    match ts {
        Some(t) => proto_to_datetime(t),
        None => Err(Error::InvalidInput(String::from_str("Missing timestamp"))),
    }
}

// ===== Sessions =====

/// Whether `r` is the wire form of a session.
pub open spec fn is_session_wire(r: proto::Session, session: ConversationSession) -> bool {
    &&& r.id@ == uuid_text(session.id.value)
    &&& r.created_at == Some(proto_time(session.created_at))
    &&& r.updated_at == Some(proto_time(session.updated_at))
    &&& r.metadata@ == session.metadata@
    &&& r.is_active == session.is_active
}

/// The wire form of a session.
pub fn session_to_proto(session: ConversationSession) -> (r: proto::Session)
    ensures
        r.id@ == uuid_text(session.id.value),
        r.created_at == Some(proto_time(session.created_at)),
        r.updated_at == Some(proto_time(session.updated_at)),
        r.metadata == session.metadata,
        r.is_active == session.is_active,
{
    proto::Session {
        id: session.id.to_string(),
        created_at: Some(datetime_to_proto(session.created_at)),
        updated_at: Some(datetime_to_proto(session.updated_at)),
        metadata: session.metadata,
        is_active: session.is_active,
    }
}

// ===== Node and edge types =====

/// The node type with a wire number.
pub open spec fn node_type_of_wire(n: i32) -> Option<NodeType> {
    if n == proto::NODE_TYPE_SESSION { Some(NodeType::Session) }
    else if n == proto::NODE_TYPE_PROMPT { Some(NodeType::Prompt) }
    else if n == proto::NODE_TYPE_RESPONSE { Some(NodeType::Response) }
    else if n == proto::NODE_TYPE_TOOL_INVOCATION { Some(NodeType::ToolInvocation) }
    else if n == proto::NODE_TYPE_AGENT { Some(NodeType::Agent) }
    else if n == proto::NODE_TYPE_TEMPLATE { Some(NodeType::Template) }
    else { None }
}

/// The wire number of a node type.
pub open spec fn wire_of_node_type(t: NodeType) -> i32 {
    match t {
        NodeType::Session => proto::NODE_TYPE_SESSION,
        NodeType::Prompt => proto::NODE_TYPE_PROMPT,
        NodeType::Response => proto::NODE_TYPE_RESPONSE,
        NodeType::ToolInvocation => proto::NODE_TYPE_TOOL_INVOCATION,
        NodeType::Agent => proto::NODE_TYPE_AGENT,
        NodeType::Template => proto::NODE_TYPE_TEMPLATE,
    }
}

/// The node type with a wire number: an error for an unknown number.
pub fn proto_to_node_type(node_type: i32) -> (r: Result<NodeType, Error>)
    ensures
        node_type_of_wire(node_type) matches Some(t) ==> r == Ok::<NodeType, Error>(t),
        node_type_of_wire(node_type) is None ==>
            (r matches Err(Error::InvalidInput(m)) && m@ == "Invalid node type: "@ + signed_decimal(node_type as int)),
{
    if node_type == proto::NODE_TYPE_SESSION { Ok(NodeType::Session) }
    else if node_type == proto::NODE_TYPE_PROMPT { Ok(NodeType::Prompt) }
    else if node_type == proto::NODE_TYPE_RESPONSE { Ok(NodeType::Response) }
    else if node_type == proto::NODE_TYPE_TOOL_INVOCATION { Ok(NodeType::ToolInvocation) }
    else if node_type == proto::NODE_TYPE_AGENT { Ok(NodeType::Agent) }
    else if node_type == proto::NODE_TYPE_TEMPLATE { Ok(NodeType::Template) }
    else {
        let n = crate::text::i64_to_string(node_type as i64);
        Err(Error::InvalidInput(prefixed("Invalid node type: ", n.as_str())))
    }
}

/// The wire number of a node type.
pub fn node_type_to_proto(node_type: NodeType) -> (r: i32)
    ensures
        r == wire_of_node_type(node_type),
{
    match node_type {
        NodeType::Session => proto::NODE_TYPE_SESSION,
        NodeType::Prompt => proto::NODE_TYPE_PROMPT,
        NodeType::Response => proto::NODE_TYPE_RESPONSE,
        NodeType::ToolInvocation => proto::NODE_TYPE_TOOL_INVOCATION,
        NodeType::Agent => proto::NODE_TYPE_AGENT,
        NodeType::Template => proto::NODE_TYPE_TEMPLATE,
    }
}

/// The edge type with a wire number.
pub open spec fn edge_type_of_wire(n: i32) -> Option<EdgeType> {
    if n == proto::EDGE_TYPE_BELONGS_TO { Some(EdgeType::PartOf) }
    else if n == proto::EDGE_TYPE_RESPONDS_TO { Some(EdgeType::RespondsTo) }
    else if n == proto::EDGE_TYPE_FOLLOWS { Some(EdgeType::Follows) }
    else if n == proto::EDGE_TYPE_INVOKES { Some(EdgeType::Invokes) }
    else if n == proto::EDGE_TYPE_HANDLED_BY { Some(EdgeType::HandledBy) }
    else if n == proto::EDGE_TYPE_INSTANTIATES { Some(EdgeType::Instantiates) }
    else if n == proto::EDGE_TYPE_INHERITS { Some(EdgeType::Inherits) }
    else if n == proto::EDGE_TYPE_TRANSFERS_TO { Some(EdgeType::TransfersTo) }
    else if n == proto::EDGE_TYPE_REFERENCES { Some(EdgeType::References) }
    else { None }
}

/// The wire number of an edge type.
pub open spec fn wire_of_edge_type(t: EdgeType) -> i32 {
    match t {
        EdgeType::PartOf => proto::EDGE_TYPE_BELONGS_TO,
        EdgeType::RespondsTo => proto::EDGE_TYPE_RESPONDS_TO,
        EdgeType::Follows => proto::EDGE_TYPE_FOLLOWS,
        EdgeType::Invokes => proto::EDGE_TYPE_INVOKES,
        EdgeType::HandledBy => proto::EDGE_TYPE_HANDLED_BY,
        EdgeType::Instantiates => proto::EDGE_TYPE_INSTANTIATES,
        EdgeType::Inherits => proto::EDGE_TYPE_INHERITS,
        EdgeType::TransfersTo => proto::EDGE_TYPE_TRANSFERS_TO,
        EdgeType::References => proto::EDGE_TYPE_REFERENCES,
    }
}

/// The edge type with a wire number: an error for an unknown number.
pub fn proto_to_edge_type(edge_type: i32) -> (r: Result<EdgeType, Error>)
    ensures
        edge_type_of_wire(edge_type) matches Some(t) ==> r == Ok::<EdgeType, Error>(t),
        edge_type_of_wire(edge_type) is None ==>
            (r matches Err(Error::InvalidInput(m)) && m@ == "Invalid edge type: "@ + signed_decimal(edge_type as int)),
{
    if edge_type == proto::EDGE_TYPE_BELONGS_TO { Ok(EdgeType::PartOf) }
    else if edge_type == proto::EDGE_TYPE_RESPONDS_TO { Ok(EdgeType::RespondsTo) }
    else if edge_type == proto::EDGE_TYPE_FOLLOWS { Ok(EdgeType::Follows) }
    else if edge_type == proto::EDGE_TYPE_INVOKES { Ok(EdgeType::Invokes) }
    else if edge_type == proto::EDGE_TYPE_HANDLED_BY { Ok(EdgeType::HandledBy) }
    else if edge_type == proto::EDGE_TYPE_INSTANTIATES { Ok(EdgeType::Instantiates) }
    else if edge_type == proto::EDGE_TYPE_INHERITS { Ok(EdgeType::Inherits) }
    else if edge_type == proto::EDGE_TYPE_TRANSFERS_TO { Ok(EdgeType::TransfersTo) }
    else if edge_type == proto::EDGE_TYPE_REFERENCES { Ok(EdgeType::References) }
    else {
        let n = crate::text::i64_to_string(edge_type as i64);
        Err(Error::InvalidInput(prefixed("Invalid edge type: ", n.as_str())))
    }
}

/// The wire number of an edge type.
pub fn edge_type_to_proto(edge_type: EdgeType) -> (r: i32)
    ensures
        r == wire_of_edge_type(edge_type),
{
    match edge_type {
        EdgeType::PartOf => proto::EDGE_TYPE_BELONGS_TO,
        EdgeType::RespondsTo => proto::EDGE_TYPE_RESPONDS_TO,
        EdgeType::Follows => proto::EDGE_TYPE_FOLLOWS,
        EdgeType::Invokes => proto::EDGE_TYPE_INVOKES,
        EdgeType::HandledBy => proto::EDGE_TYPE_HANDLED_BY,
        EdgeType::Instantiates => proto::EDGE_TYPE_INSTANTIATES,
        EdgeType::Inherits => proto::EDGE_TYPE_INHERITS,
        EdgeType::TransfersTo => proto::EDGE_TYPE_TRANSFERS_TO,
        EdgeType::References => proto::EDGE_TYPE_REFERENCES,
    }
}

/// Node types survive the trip to the wire and back.
pub proof fn lemma_node_type_round_trip(t: NodeType)
    ensures
        node_type_of_wire(wire_of_node_type(t)) == Some(t),
{
}

/// Edge types survive the trip to the wire and back.
pub proof fn lemma_edge_type_round_trip(t: EdgeType)
    ensures
        edge_type_of_wire(wire_of_edge_type(t)) == Some(t),
{
}

// ===== Metadata =====

/// The wire form of prompt metadata; the token limit is cut to 32 bits.
pub open spec fn prompt_metadata_wire(m: PromptMetadata) -> proto::PromptMetadata {
    proto::PromptMetadata {
        model: m.model,
        temperature_bits: m.temperature_bits,
        max_tokens: match m.max_tokens { Some(t) => Some(t as i32), None => None },
        tools_available: m.tools_available,
        custom: m.custom,
    }
}

/// Prompt metadata read from its wire form.
pub open spec fn prompt_metadata_of_wire(metadata: proto::PromptMetadata) -> PromptMetadata {
    PromptMetadata {
        model: metadata.model,
        temperature_bits: metadata.temperature_bits,
        max_tokens: match metadata.max_tokens { Some(t) => Some(t as usize), None => None },
        tools_available: metadata.tools_available,
        custom: metadata.custom,
    }
}

/// Prompt metadata from its wire form.
pub fn proto_to_prompt_metadata(metadata: proto::PromptMetadata) -> (r: PromptMetadata)
    ensures
        r == prompt_metadata_of_wire(metadata),
{
    PromptMetadata {
        model: metadata.model,
        temperature_bits: metadata.temperature_bits,
        max_tokens: match metadata.max_tokens {
            Some(t) => Some(t as usize),
            None => None,
        },
        tools_available: metadata.tools_available,
        custom: metadata.custom,
    }
}

/// The wire form of prompt metadata.
pub fn prompt_metadata_to_proto(metadata: PromptMetadata) -> (r: proto::PromptMetadata)
    ensures
        r == prompt_metadata_wire(metadata),
{
    proto::PromptMetadata {
        model: metadata.model,
        temperature_bits: metadata.temperature_bits,
        max_tokens: match metadata.max_tokens {
            Some(t) => Some(t as i32),
            None => None,
        },
        tools_available: metadata.tools_available,
        custom: metadata.custom,
    }
}

/// The wire form of response metadata.
pub open spec fn response_metadata_wire(m: ResponseMetadata) -> proto::ResponseMetadata {
    proto::ResponseMetadata {
        model: m.model,
        finish_reason: m.finish_reason,
        latency_ms: m.latency_ms as i64,
        custom: m.custom,
    }
}

/// Response metadata read from its wire form.
pub open spec fn response_metadata_of_wire(metadata: proto::ResponseMetadata) -> ResponseMetadata {
    ResponseMetadata {
        model: metadata.model,
        finish_reason: metadata.finish_reason,
        latency_ms: metadata.latency_ms as u64,
        custom: metadata.custom,
    }
}

/// Response metadata from its wire form.
pub fn proto_to_response_metadata(metadata: proto::ResponseMetadata) -> (r: ResponseMetadata)
    ensures
        r == response_metadata_of_wire(metadata),
{
    ResponseMetadata {
        model: metadata.model,
        finish_reason: metadata.finish_reason,
        latency_ms: metadata.latency_ms as u64,
        custom: metadata.custom,
    }
}

/// The wire form of response metadata.
pub fn response_metadata_to_proto(metadata: ResponseMetadata) -> (r: proto::ResponseMetadata)
    ensures
        r == response_metadata_wire(metadata),
{
    proto::ResponseMetadata {
        model: metadata.model,
        finish_reason: metadata.finish_reason,
        latency_ms: metadata.latency_ms as i64,
        custom: metadata.custom,
    }
}

/// The wire form of token usage.
pub open spec fn token_usage_wire(u: TokenUsage) -> proto::TokenUsage {
    proto::TokenUsage {
        prompt_tokens: u.prompt_tokens as i64,
        completion_tokens: u.completion_tokens as i64,
        total_tokens: u.total_tokens as i64,
    }
}

/// Token usage read from its wire form.
pub open spec fn token_usage_of_wire(usage: proto::TokenUsage) -> TokenUsage {
    TokenUsage {
        prompt_tokens: usage.prompt_tokens as usize,
        completion_tokens: usage.completion_tokens as usize,
        total_tokens: usage.total_tokens as usize,
    }
}

/// Token usage from its wire form.
pub fn proto_to_token_usage(usage: proto::TokenUsage) -> (r: TokenUsage)
    ensures
        r == token_usage_of_wire(usage),
{
    TokenUsage {
        prompt_tokens: usage.prompt_tokens as usize,
        completion_tokens: usage.completion_tokens as usize,
        total_tokens: usage.total_tokens as usize,
    }
}

/// The wire form of token usage.
pub fn token_usage_to_proto(usage: TokenUsage) -> (r: proto::TokenUsage)
    ensures
        r == token_usage_wire(usage),
{
    proto::TokenUsage {
        prompt_tokens: usage.prompt_tokens as i64,
        completion_tokens: usage.completion_tokens as i64,
        total_tokens: usage.total_tokens as i64,
    }
}

/// Token counts that fit in an `i64` survive the trip to the wire and
/// back.
pub proof fn lemma_token_usage_round_trip(u: TokenUsage)
    requires
        u.prompt_tokens <= i64::MAX,
        u.completion_tokens <= i64::MAX,
        u.total_tokens <= i64::MAX,
    ensures
        ({
            let w = token_usage_wire(u);
            (TokenUsage {
                prompt_tokens: w.prompt_tokens as usize,
                completion_tokens: w.completion_tokens as usize,
                total_tokens: w.total_tokens as usize,
            }) == u
        }),
{
}

// ===== Nodes =====

/// Whether `w` carries prompt metadata `m` on the wire; the token limit
/// is cut to 32 bits.
pub open spec fn is_prompt_metadata_wire(w: proto::PromptMetadata, m: PromptMetadata) -> bool {
    &&& w.model == m.model
    &&& w.temperature_bits == m.temperature_bits
    &&& w.max_tokens == (match m.max_tokens { Some(t) => Some(t as i32), None => None })
    &&& w.tools_available@ == m.tools_available@
    &&& w.custom@ == m.custom@
}

/// Whether `w` carries response metadata `m` on the wire.
pub open spec fn is_response_metadata_wire(w: proto::ResponseMetadata, m: ResponseMetadata) -> bool {
    &&& w.model == m.model
    &&& w.finish_reason == m.finish_reason
    &&& w.latency_ms == m.latency_ms as i64
    &&& w.custom@ == m.custom@
}

/// Whether `r` is the wire form of a prompt.
pub open spec fn is_prompt_wire(r: proto::PromptNode, prompt: PromptNode) -> bool {
    &&& r.id@ == uuid_text(prompt.id.value)
    &&& r.session_id@ == uuid_text(prompt.session_id.value)
    &&& r.content == prompt.content
    &&& r.timestamp == Some(proto_time(prompt.timestamp))
    &&& r.metadata matches Some(w) && is_prompt_metadata_wire(w, prompt.metadata)
}

/// The wire form of a prompt.
pub fn prompt_node_to_proto(prompt: PromptNode) -> (r: proto::PromptNode)
    ensures
        is_prompt_wire(r, prompt),
{
    proto::PromptNode {
        id: prompt.id.to_string(),
        session_id: prompt.session_id.to_string(),
        content: prompt.content,
        timestamp: Some(datetime_to_proto(prompt.timestamp)),
        metadata: Some(prompt_metadata_to_proto(prompt.metadata)),
    }
}

/// Whether `r` is the wire form of a response.
pub open spec fn is_response_wire(r: proto::ResponseNode, response: ResponseNode) -> bool {
    &&& r.id@ == uuid_text(response.id.value)
    &&& r.prompt_id@ == uuid_text(response.prompt_id.value)
    &&& r.content == response.content
    &&& r.timestamp == Some(proto_time(response.timestamp))
    &&& r.token_usage == Some(token_usage_wire(response.usage))
    &&& r.metadata matches Some(w) && is_response_metadata_wire(w, response.metadata)
}

/// The wire form of a response.
pub fn response_node_to_proto(response: ResponseNode) -> (r: proto::ResponseNode)
    ensures
        is_response_wire(r, response),
{
    proto::ResponseNode {
        id: response.id.to_string(),
        prompt_id: response.prompt_id.to_string(),
        content: response.content,
        timestamp: Some(datetime_to_proto(response.timestamp)),
        token_usage: Some(token_usage_to_proto(response.usage)),
        metadata: Some(response_metadata_to_proto(response.metadata)),
    }
}

/// Whether `r` is the wire form of a tool invocation: a missing duration
/// or retry count is sent as zero.
pub open spec fn is_tool_wire(r: proto::ToolInvocationNode, tool: ToolInvocation) -> bool {
    &&& r.id@ == uuid_text(tool.id.value)
    &&& r.response_id@ == uuid_text(tool.response_id.value)
    &&& r.tool_name == tool.tool_name
    &&& r.parameters == tool.parameters
    &&& r.status == tool.status
    &&& r.result == tool.result
    &&& r.error == tool.error
    &&& r.duration_ms == (match tool.duration_ms { Some(d) => d as i64, None => 0 })
    &&& r.retry_count == (match tool.retry_count { Some(c) => c as i32, None => 0 })
    &&& r.timestamp == Some(proto_time(tool.timestamp))
    &&& r.metadata@ == tool.metadata@
}

/// The wire form of a tool invocation: a missing duration or retry count
/// is sent as zero.
pub fn tool_invocation_to_proto(tool: ToolInvocation) -> (r: proto::ToolInvocationNode)
    ensures
        is_tool_wire(r, tool),
{
    proto::ToolInvocationNode {
        id: tool.id.to_string(),
        response_id: tool.response_id.to_string(),
        tool_name: tool.tool_name,
        parameters: tool.parameters,
        status: tool.status,
        result: tool.result,
        error: tool.error,
        duration_ms: match tool.duration_ms {
            Some(d) => d as i64,
            None => 0,
        },
        retry_count: match tool.retry_count {
            Some(c) => c as i32,
            None => 0,
        },
        timestamp: Some(datetime_to_proto(tool.timestamp)),
        metadata: tool.metadata,
    }
}

/// Whether `r` is the wire form of an agent.
pub open spec fn is_agent_wire(r: proto::AgentNode, agent: AgentNode) -> bool {
    &&& r.id@ == uuid_text(agent.id.value)
    &&& r.name == agent.name
    &&& r.role == agent.role
    &&& r.capabilities@ == agent.capabilities@
    &&& r.status@ == agent_status_text(agent.status)
    &&& r.created_at == Some(proto_time(agent.created_at))
    &&& r.metadata@ == agent.metadata@
}

/// The wire form of an agent.
pub fn agent_node_to_proto(agent: AgentNode) -> (r: proto::AgentNode)
    ensures
        is_agent_wire(r, agent),
{
    proto::AgentNode {
        id: agent.id.to_string(),
        name: agent.name,
        role: agent.role,
        capabilities: agent.capabilities,
        status: agent.status.to_string(),
        created_at: Some(datetime_to_proto(agent.created_at)),
        metadata: agent.metadata,
    }
}

/// The wire form of a template variable.
pub open spec fn variable_spec_wire(v: VariableSpec) -> proto::VariableSpec {
    proto::VariableSpec {
        name: v.name,
        type_hint: v.type_hint,
        required: v.required,
        default_value: v.default_value,
        validation_pattern: v.validation_pattern,
        description: v.description,
    }
}

/// The wire form of a template variable.
pub fn variable_spec_to_proto(spec: VariableSpec) -> (r: proto::VariableSpec)
    ensures
        r == variable_spec_wire(spec),
{
    proto::VariableSpec {
        name: spec.name,
        type_hint: spec.type_hint,
        required: spec.required,
        default_value: spec.default_value,
        validation_pattern: spec.validation_pattern,
        description: spec.description,
    }
}

/// Whether `r` is the wire form of a template.
pub open spec fn is_template_wire(r: proto::TemplateNode, template: PromptTemplate) -> bool {
    &&& r.id@ == uuid_text(template.id.value)
    &&& r.name == template.name
    &&& r.template_text == template.template_text
    &&& r.variables@ == template.variables@.map_values(|v: VariableSpec| variable_spec_wire(v))
    &&& r.version@ == version_text(template.version)
    &&& r.usage_count == template.usage_count as i64
    &&& r.created_at == Some(proto_time(template.created_at))
    &&& r.metadata@ == template.metadata@
}

/// The wire form of a template.
pub fn template_to_proto(template: PromptTemplate) -> (r: proto::TemplateNode)
    ensures
        is_template_wire(r, template),
{
    let id = template.id.to_string();
    let version = template.version.to_string();
    let created_at = Some(datetime_to_proto(template.created_at));
    let usage_count = template.usage_count as i64;
    let PromptTemplate { id: _, node_id: _, name, template_text, variables, version: _, usage_count: _, created_at: _, metadata } = template;
    let ghost vs = variables@;
    let mut rest = variables;
    let mut out: Vec<proto::VariableSpec> = Vec::new();
    while rest.len() > 0
        invariant
            rest@.len() <= vs.len(),
            rest@ == vs.skip(vs.len() - rest@.len()),
            out@ == vs.take(vs.len() - rest@.len()).map_values(|v: VariableSpec| variable_spec_wire(v)),
        decreases rest@.len(),
    {
        let ghost k = vs.len() - rest@.len();
        let v = rest.remove(0);
        proof {
            assert(v == vs[k]);
            assert(rest@ =~= vs.skip(k + 1));
        }
        out.push(variable_spec_to_proto(v));
        proof {
            assert(out@ =~= vs.take(k + 1).map_values(|v: VariableSpec| variable_spec_wire(v)));
        }
    }
    assert(vs.take(vs.len() as int) =~= vs);
    proto::TemplateNode {
        id,
        name,
        template_text,
        variables: out,
        version,
        usage_count,
        created_at,
        metadata,
    }
}

/// Whether `data` is the wire form of the data of a node: none for a
/// session, the wire form of the prompt, response, tool invocation, agent
/// or template otherwise.
pub open spec fn is_node_data_wire(data: Option<proto::NodeData>, node: Node) -> bool {
    match node {
        Node::Session(_) => data is None,
        Node::Prompt(p) => data matches Some(proto::NodeData::Prompt(x)) && is_prompt_wire(x, p),
        Node::Response(v) => data matches Some(proto::NodeData::Response(x)) && is_response_wire(x, v),
        Node::ToolInvocation(t) => data matches Some(proto::NodeData::ToolInvocation(x)) && is_tool_wire(x, t),
        Node::Agent(a) => data matches Some(proto::NodeData::Agent(x)) && is_agent_wire(x, a),
        Node::Template(t) => data matches Some(proto::NodeData::Template(x)) && is_template_wire(x, t),
    }
}

/// The wire form of a node, stamped with the current time; a session
/// carries no node data.
pub fn node_to_proto(node: Node) -> (r: proto::Node)
    ensures
        r.id@ == uuid_text(crate::nodes::node_id_of(&node).value),
        r.node_type == wire_of_node_type(crate::nodes::node_type_of(&node)),
        r.created_at is Some,
        is_node_data_wire(r.node_data, node),
{
    let id = node.id().to_string();
    let created_at = Some(datetime_to_proto(Timestamp::now()));
    let node_type = node_type_to_proto(node.node_type());
    let node_data = match node {
        Node::Prompt(p) => Some(proto::NodeData::Prompt(prompt_node_to_proto(p))),
        Node::Response(r) => Some(proto::NodeData::Response(response_node_to_proto(r))),
        Node::ToolInvocation(t) => Some(proto::NodeData::ToolInvocation(tool_invocation_to_proto(t))),
        Node::Agent(a) => Some(proto::NodeData::Agent(agent_node_to_proto(a))),
        Node::Template(t) => Some(proto::NodeData::Template(template_to_proto(t))),
        Node::Session(_) => None,
    };
    proto::Node { id, node_type, created_at, node_data }
}

/// Whether `r` is the wire form of an edge.
pub open spec fn is_edge_wire(r: proto::Edge, edge: Edge) -> bool {
    &&& r.id@ == uuid_text(edge.id.value)
    &&& r.from_node_id@ == uuid_text(edge.from.value)
    &&& r.to_node_id@ == uuid_text(edge.to.value)
    &&& r.edge_type == wire_of_edge_type(edge.edge_type)
    &&& r.created_at == Some(proto_time(edge.created_at))
    &&& r.properties@ == edge.properties@
}

/// The wire form of an edge.
pub fn edge_to_proto(edge: Edge) -> (r: proto::Edge)
    ensures
        is_edge_wire(r, edge),
{
    proto::Edge {
        id: edge.id.to_string(),
        from_node_id: edge.from.to_string(),
        to_node_id: edge.to.to_string(),
        edge_type: edge_type_to_proto(edge.edge_type),
        created_at: Some(datetime_to_proto(edge.created_at)),
        properties: edge.properties,
    }
}

// ===== Identifiers =====

/// Parse a session identifier: an error when the text is no UUID.
pub fn parse_session_id(id: &str) -> (r: Result<SessionId, Error>)
    ensures
        uuid_parsed(id@) matches Some(v) ==> r == Ok::<SessionId, Error>(SessionId { value: v }),
        uuid_parsed(id@) is None ==> (r matches Err(Error::InvalidInput(m)) && m@ == "Invalid session ID: "@ + id@),
{
    match SessionId::parse_str(id) {
        Some(s) => Ok(s),
        None => Err(Error::InvalidInput(prefixed("Invalid session ID: ", id))),
    }
}

/// Parse a node identifier: an error when the text is no UUID.
pub fn parse_node_id(id: &str) -> (r: Result<NodeId, Error>)
    ensures
        uuid_parsed(id@) matches Some(v) ==> r == Ok::<NodeId, Error>(NodeId { value: v }),
        uuid_parsed(id@) is None ==> (r matches Err(Error::InvalidInput(m)) && m@ == "Invalid node ID: "@ + id@),
{
    match NodeId::parse_str(id) {
        Some(n) => Ok(n),
        None => Err(Error::InvalidInput(prefixed("Invalid node ID: ", id))),
    }
}

/// Each node type travels as the wire constant of the same name, both
/// ways: `Session` as `NODE_TYPE_SESSION`, `Prompt` as `NODE_TYPE_PROMPT`,
/// and so on; so a node is sent with the constant named after its own
/// variant.
pub proof fn lemma_node_type_wire_names(t: NodeType, n: Node)
    ensures
        t == NodeType::Session <==> wire_of_node_type(t) == proto::NODE_TYPE_SESSION,
        t == NodeType::Prompt <==> wire_of_node_type(t) == proto::NODE_TYPE_PROMPT,
        t == NodeType::Response <==> wire_of_node_type(t) == proto::NODE_TYPE_RESPONSE,
        t == NodeType::ToolInvocation <==> wire_of_node_type(t) == proto::NODE_TYPE_TOOL_INVOCATION,
        t == NodeType::Agent <==> wire_of_node_type(t) == proto::NODE_TYPE_AGENT,
        t == NodeType::Template <==> wire_of_node_type(t) == proto::NODE_TYPE_TEMPLATE,
        node_type_of_wire(proto::NODE_TYPE_SESSION) == Some(NodeType::Session),
        node_type_of_wire(proto::NODE_TYPE_PROMPT) == Some(NodeType::Prompt),
        node_type_of_wire(proto::NODE_TYPE_RESPONSE) == Some(NodeType::Response),
        node_type_of_wire(proto::NODE_TYPE_TOOL_INVOCATION) == Some(NodeType::ToolInvocation),
        node_type_of_wire(proto::NODE_TYPE_AGENT) == Some(NodeType::Agent),
        node_type_of_wire(proto::NODE_TYPE_TEMPLATE) == Some(NodeType::Template),
        node_type_of_wire(proto::NODE_TYPE_UNSPECIFIED) is None,
        n is Session ==> wire_of_node_type(crate::nodes::node_type_of(&n)) == proto::NODE_TYPE_SESSION,
        n is Prompt ==> wire_of_node_type(crate::nodes::node_type_of(&n)) == proto::NODE_TYPE_PROMPT,
        n is Response ==> wire_of_node_type(crate::nodes::node_type_of(&n)) == proto::NODE_TYPE_RESPONSE,
        n is ToolInvocation ==> wire_of_node_type(crate::nodes::node_type_of(&n)) == proto::NODE_TYPE_TOOL_INVOCATION,
        n is Agent ==> wire_of_node_type(crate::nodes::node_type_of(&n)) == proto::NODE_TYPE_AGENT,
        n is Template ==> wire_of_node_type(crate::nodes::node_type_of(&n)) == proto::NODE_TYPE_TEMPLATE,
{
    crate::nodes::lemma_node_type_is_variant(n);
}

/// Each edge type travels as the wire constant of the same name, both
/// ways; PART_OF is the protocol's `EDGE_TYPE_BELONGS_TO`.
pub proof fn lemma_edge_type_wire_names(t: EdgeType)
    ensures
        t == EdgeType::PartOf <==> wire_of_edge_type(t) == proto::EDGE_TYPE_BELONGS_TO,
        t == EdgeType::RespondsTo <==> wire_of_edge_type(t) == proto::EDGE_TYPE_RESPONDS_TO,
        t == EdgeType::Follows <==> wire_of_edge_type(t) == proto::EDGE_TYPE_FOLLOWS,
        t == EdgeType::Invokes <==> wire_of_edge_type(t) == proto::EDGE_TYPE_INVOKES,
        t == EdgeType::HandledBy <==> wire_of_edge_type(t) == proto::EDGE_TYPE_HANDLED_BY,
        t == EdgeType::Instantiates <==> wire_of_edge_type(t) == proto::EDGE_TYPE_INSTANTIATES,
        t == EdgeType::Inherits <==> wire_of_edge_type(t) == proto::EDGE_TYPE_INHERITS,
        t == EdgeType::TransfersTo <==> wire_of_edge_type(t) == proto::EDGE_TYPE_TRANSFERS_TO,
        t == EdgeType::References <==> wire_of_edge_type(t) == proto::EDGE_TYPE_REFERENCES,
        edge_type_of_wire(proto::EDGE_TYPE_BELONGS_TO) == Some(EdgeType::PartOf),
        edge_type_of_wire(proto::EDGE_TYPE_RESPONDS_TO) == Some(EdgeType::RespondsTo),
        edge_type_of_wire(proto::EDGE_TYPE_FOLLOWS) == Some(EdgeType::Follows),
        edge_type_of_wire(proto::EDGE_TYPE_INVOKES) == Some(EdgeType::Invokes),
        edge_type_of_wire(proto::EDGE_TYPE_HANDLED_BY) == Some(EdgeType::HandledBy),
        edge_type_of_wire(proto::EDGE_TYPE_INSTANTIATES) == Some(EdgeType::Instantiates),
        edge_type_of_wire(proto::EDGE_TYPE_INHERITS) == Some(EdgeType::Inherits),
        edge_type_of_wire(proto::EDGE_TYPE_TRANSFERS_TO) == Some(EdgeType::TransfersTo),
        edge_type_of_wire(proto::EDGE_TYPE_REFERENCES) == Some(EdgeType::References),
        edge_type_of_wire(proto::EDGE_TYPE_UNSPECIFIED) is None,
{
}

/// An error is reported as "not found" exactly when something asked for
/// is missing, as "invalid argument" exactly when the input was bad, as
/// "deadline exceeded" exactly for a timeout, and as an internal error
/// otherwise.
pub proof fn lemma_status_codes(e: Error)
    ensures
        status_code(&e) == Code::NotFound <==> (e is NotFound || e is SessionNotFound || e is NodeNotFound),
        status_code(&e) == Code::InvalidArgument <==> e is InvalidInput,
        status_code(&e) == Code::DeadlineExceeded <==> e is Timeout,
        status_code(&e) == Code::Internal <==> !(e is NotFound || e is SessionNotFound || e is NodeNotFound
            || e is InvalidInput || e is Timeout),
{
}

} // verus!

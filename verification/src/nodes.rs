//! Node types of the memory graph: sessions, prompts, responses, tool
//! invocations, agents and templates.

use vstd::prelude::*;
use crate::ids::{AgentId, NodeId, SessionId, TemplateId, Timestamp};
use crate::props::PropertyMap;
use crate::text::decimal;

verus! {

/// The kind of a node.
#[derive(Debug, Clone, Copy, PartialEq, Eq, Structural, Hash)]
pub enum NodeType {
    /// A conversation session
    Session,
    /// A prompt
    Prompt,
    /// A response to a prompt
    Response,
    /// A tool invocation made by a response
    ToolInvocation,
    /// An agent
    Agent,
    /// A prompt template
    Template,
}

/// Token counts of a response.
#[derive(Debug, Clone, Copy, PartialEq, Eq, Structural)]
pub struct TokenUsage {
    /// Tokens in the prompt
    pub prompt_tokens: usize,
    /// Tokens in the completion
    pub completion_tokens: usize,
    /// Tokens in all
    pub total_tokens: usize,
}

impl TokenUsage {
    /// Token usage of a prompt and its completion; the total is their sum.
    pub fn new(prompt_tokens: usize, completion_tokens: usize) -> (u: Self)
        requires
            prompt_tokens + completion_tokens <= usize::MAX,
        ensures
            u.prompt_tokens == prompt_tokens,
            u.completion_tokens == completion_tokens,
            u.total_tokens == prompt_tokens + completion_tokens,
    {
        TokenUsage { prompt_tokens, completion_tokens, total_tokens: prompt_tokens + completion_tokens }
    }
}

/// A conversation session.
#[derive(Debug)]
pub struct ConversationSession {
    /// Session identifier
    pub id: SessionId,
    /// Identifier of the session's node in the graph
    pub node_id: NodeId,
    /// When the session was created
    pub created_at: Timestamp,
    /// When the session was last updated
    pub updated_at: Timestamp,
    /// Session metadata
    pub metadata: PropertyMap,
    /// Tags of the session
    pub tags: Vec<String>,
    /// Whether the session is active
    pub is_active: bool,
}

impl ConversationSession {
    /// A new active session with fresh identifiers, no metadata and no
    /// tags; it is created and updated now.
    pub fn new() -> (s: Self)
        ensures
            s.metadata@ == Map::<Seq<char>, Seq<char>>::empty(),
            s.tags@.len() == 0,
            s.is_active,
            s.created_at == s.updated_at,
    {
        ConversationSession::with_metadata(PropertyMap::new())
    }

    /// A copy of the session.
    pub fn duplicate(&self) -> (s: Self)
        ensures
            s.id == self.id,
            s.node_id == self.node_id,
            s.created_at == self.created_at,
            s.updated_at == self.updated_at,
            s.metadata@ == self.metadata@,
            s.tags@ == self.tags@,
            s.tags.deep_view() == self.tags.deep_view(),
            s.is_active == self.is_active,
    {
        ConversationSession {
            id: self.id,
            node_id: self.node_id,
            created_at: self.created_at,
            updated_at: self.updated_at,
            metadata: self.metadata.duplicate(),
            tags: crate::plugin::copy_strings(&self.tags),
            is_active: self.is_active,
        }
    }

    /// A new active session with the given metadata and no tags.
    pub fn with_metadata(metadata: PropertyMap) -> (s: Self)
        ensures
            s.metadata@ == metadata@,
            s.tags@.len() == 0,
            s.is_active,
            s.created_at == s.updated_at,
    {
        let now = Timestamp::now();
        ConversationSession {
            id: SessionId::new(),
            node_id: NodeId::new(),
            created_at: now,
            updated_at: now,
            metadata,
            tags: Vec::new(),
            is_active: true,
        }
    }
}

/// Metadata of a prompt.
#[derive(Debug)]
pub struct PromptMetadata {
    /// Model the prompt is for
    pub model: String,
    /// Sampling temperature, as the bits of an `f32`
    pub temperature_bits: u32,
    /// Token limit of the completion
    pub max_tokens: Option<usize>,
    /// Tools offered to the model
    pub tools_available: Vec<String>,
    /// Further metadata
    pub custom: PropertyMap,
}

impl Default for PromptMetadata {
    /// No model named, a temperature of 0.7, no token limit, no tools and
    /// no further metadata.
    fn default() -> (m: Self)
        ensures
            m.model@ == Seq::<char>::empty(),
            m.temperature_bits == 0x3F33_3333,
            m.max_tokens is None,
            m.tools_available@.len() == 0,
            m.custom@ == Map::<Seq<char>, Seq<char>>::empty(),
    {
        PromptMetadata {
            model: String::new(),
            temperature_bits: 0x3F33_3333,
            max_tokens: None,
            tools_available: Vec::new(),
            custom: PropertyMap::new(),
        }
    }
}

/// A prompt within a session.
#[derive(Debug)]
pub struct PromptNode {
    /// Node identifier
    pub id: NodeId,
    /// Session the prompt belongs to
    pub session_id: SessionId,
    /// Prompt text
    pub content: String,
    /// Prompt metadata
    pub metadata: PromptMetadata,
    /// When the prompt was submitted
    pub timestamp: Timestamp,
    /// Template the prompt was made from, if any
    pub template_id: Option<TemplateId>,
    /// Template variables used
    pub variables: PropertyMap,
}

/// Metadata of a response.
#[derive(Debug)]
pub struct ResponseMetadata {
    /// Model that answered
    pub model: String,
    /// Why generation stopped
    pub finish_reason: String,
    /// Time to answer in milliseconds
    pub latency_ms: u64,
    /// Further metadata
    pub custom: PropertyMap,
}

impl Default for ResponseMetadata {
    /// No model named, no finish reason, zero latency and no further
    /// metadata.
    fn default() -> (m: Self)
        ensures
            m.model@ == Seq::<char>::empty(),
            m.finish_reason@ == Seq::<char>::empty(),
            m.latency_ms == 0,
            m.custom@ == Map::<Seq<char>, Seq<char>>::empty(),
    {
        ResponseMetadata {
            model: String::new(),
            finish_reason: String::new(),
            latency_ms: 0,
            custom: PropertyMap::new(),
        }
    }
}

/// A response to a prompt.
#[derive(Debug)]
pub struct ResponseNode {
    /// Node identifier
    pub id: NodeId,
    /// Prompt answered
    pub prompt_id: NodeId,
    /// When the response was generated
    pub timestamp: Timestamp,
    /// Response text
    pub content: String,
    /// Token usage
    pub usage: TokenUsage,
    /// Response metadata
    pub metadata: ResponseMetadata,
}

/// A tool invoked by a response.
#[derive(Debug)]
pub struct ToolInvocation {
    /// Node identifier
    pub id: NodeId,
    /// Response that invoked the tool
    pub response_id: NodeId,
    /// Tool name
    pub tool_name: String,
    /// Parameters, as JSON text
    pub parameters: String,
    /// Invocation status
    pub status: String,
    /// Result, as JSON text
    pub result: Option<String>,
    /// Error message
    pub error: Option<String>,
    /// Duration in milliseconds
    pub duration_ms: Option<u64>,
    /// Number of retries
    pub retry_count: Option<u32>,
    /// When the tool was invoked
    pub timestamp: Timestamp,
    /// Further metadata
    pub metadata: PropertyMap,
}

/// Status of an agent.
#[derive(Debug, Clone, Copy, PartialEq, Eq, Structural)]
pub enum AgentStatus {
    /// Waiting for work
    Idle,
    /// Working
    Busy,
    /// Paused
    Paused,
    /// Stopped for good
    Terminated,
}

/// The lowercase name of an agent status.
pub open spec fn agent_status_text(s: AgentStatus) -> Seq<char> {
    match s {
        AgentStatus::Idle => "idle"@,
        AgentStatus::Busy => "busy"@,
        AgentStatus::Paused => "paused"@,
        AgentStatus::Terminated => "terminated"@,
    }
}

impl AgentStatus {
    /// The status's lowercase name.
    pub fn to_string(&self) -> (s: String)
        ensures
            s@ == agent_status_text(*self),
    {
        match self {
            AgentStatus::Idle => String::from_str("idle"),
            AgentStatus::Busy => String::from_str("busy"),
            AgentStatus::Paused => String::from_str("paused"),
            AgentStatus::Terminated => String::from_str("terminated"),
        }
    }
}

/// An agent that handles prompts.
#[derive(Debug)]
pub struct AgentNode {
    /// Agent identifier
    pub id: AgentId,
    /// Identifier of the agent's node in the graph
    pub node_id: NodeId,
    /// Agent name
    pub name: String,
    /// Agent role
    pub role: String,
    /// Agent capabilities
    pub capabilities: Vec<String>,
    /// Agent status
    pub status: AgentStatus,
    /// When the agent was created
    pub created_at: Timestamp,
    /// Further metadata
    pub metadata: PropertyMap,
}

/// A semantic version.
#[derive(Debug, Clone, Copy, PartialEq, Eq, Structural)]
pub struct Version {
    /// Major version
    pub major: u32,
    /// Minor version
    pub minor: u32,
    /// Patch version
    pub patch: u32,
}

/// The text of a version: `major.minor.patch`.
pub open spec fn version_text(v: Version) -> Seq<char> {
    decimal(v.major as nat) + "."@ + decimal(v.minor as nat) + "."@ + decimal(v.patch as nat)
}

impl Version {
    /// The version's text.
    pub fn to_string(&self) -> (s: String)
        ensures
            s@ == version_text(*self),
    {
        let mut s = crate::text::u64_to_string(self.major as u64);
        s.append(".");
        let minor = crate::text::u64_to_string(self.minor as u64);
        s.append(minor.as_str());
        s.append(".");
        let patch = crate::text::u64_to_string(self.patch as u64);
        s.append(patch.as_str());
        s
    }
}

/// A variable of a prompt template.
#[derive(Debug)]
pub struct VariableSpec {
    /// Variable name
    pub name: String,
    /// Expected type
    pub type_hint: String,
    /// Whether a value is required
    pub required: bool,
    /// Value used when none is given
    pub default_value: Option<String>,
    /// Pattern a value must match
    pub validation_pattern: Option<String>,
    /// Description
    pub description: String,
}

/// A prompt template.
#[derive(Debug)]
pub struct PromptTemplate {
    /// Template identifier
    pub id: TemplateId,
    /// Identifier of the template's node in the graph
    pub node_id: NodeId,
    /// Template name
    pub name: String,
    /// Template text with `{{variable}}` placeholders
    pub template_text: String,
    /// Variables of the template
    pub variables: Vec<VariableSpec>,
    /// Template version
    pub version: Version,
    /// Number of times the template was used
    pub usage_count: u64,
    /// When the template was created
    pub created_at: Timestamp,
    /// Further metadata
    pub metadata: PropertyMap,
}

/// A node of the graph.
#[derive(Debug)]
pub enum Node {
    /// A conversation session
    Session(ConversationSession),
    /// A prompt
    Prompt(PromptNode),
    /// A response
    Response(ResponseNode),
    /// A tool invocation
    ToolInvocation(ToolInvocation),
    /// An agent
    Agent(AgentNode),
    /// A template
    Template(PromptTemplate),
}

/// The identifier of a node in the graph.
pub open spec fn node_id_of(n: &Node) -> NodeId {
    match n {
        Node::Session(s) => s.node_id,
        Node::Prompt(p) => p.id,
        Node::Response(r) => r.id,
        Node::ToolInvocation(t) => t.id,
        Node::Agent(a) => a.node_id,
        Node::Template(t) => t.node_id,
    }
}

/// The kind of a node.
pub open spec fn node_type_of(n: &Node) -> NodeType {
    match n {
        Node::Session(_) => NodeType::Session,
        Node::Prompt(_) => NodeType::Prompt,
        Node::Response(_) => NodeType::Response,
        Node::ToolInvocation(_) => NodeType::ToolInvocation,
        Node::Agent(_) => NodeType::Agent,
        Node::Template(_) => NodeType::Template,
    }
}

/// The time a node is ordered by: when it was submitted, generated,
/// invoked or created.
pub open spec fn node_time(n: &Node) -> Timestamp {
    match n {
        Node::Session(s) => s.created_at,
        Node::Prompt(p) => p.timestamp,
        Node::Response(r) => r.timestamp,
        Node::ToolInvocation(t) => t.timestamp,
        Node::Agent(a) => a.created_at,
        Node::Template(t) => t.created_at,
    }
}

impl Node {
    /// The node's identifier.
    pub fn id(&self) -> (id: NodeId)
        ensures
            id == node_id_of(self),
    {
        match self {
            Node::Session(s) => s.node_id,
            Node::Prompt(p) => p.id,
            Node::Response(r) => r.id,
            Node::ToolInvocation(t) => t.id,
            Node::Agent(a) => a.node_id,
            Node::Template(t) => t.node_id,
        }
    }

    /// The node's kind.
    pub fn node_type(&self) -> (t: NodeType)
        ensures
            t == node_type_of(self),
    {
        match self {
            Node::Session(_) => NodeType::Session,
            Node::Prompt(_) => NodeType::Prompt,
            Node::Response(_) => NodeType::Response,
            Node::ToolInvocation(_) => NodeType::ToolInvocation,
            Node::Agent(_) => NodeType::Agent,
            Node::Template(_) => NodeType::Template,
        }
    }

    /// The time the node is ordered by.
    pub fn time(&self) -> (t: Timestamp)
        ensures
            t == node_time(self),
    {
        match self {
            Node::Session(s) => s.created_at,
            Node::Prompt(p) => p.timestamp,
            Node::Response(r) => r.timestamp,
            Node::ToolInvocation(t) => t.timestamp,
            Node::Agent(a) => a.created_at,
            Node::Template(t) => t.created_at,
        }
    }
}

// ===== Copies =====

/// A copy of an optional string.
pub fn copy_opt_string(o: &Option<String>) -> (r: Option<String>)
    ensures
        r == *o,
{
    match o {
        Some(x) => Some(x.clone()),
        None => None,
    }
}

/// Whether two prompt metadata hold the same values.
pub open spec fn same_prompt_metadata(a: PromptMetadata, b: PromptMetadata) -> bool {
    &&& a.model == b.model
    &&& a.temperature_bits == b.temperature_bits
    &&& a.max_tokens == b.max_tokens
    &&& a.tools_available@ == b.tools_available@
    &&& a.custom@ == b.custom@
}

/// Whether two response metadata hold the same values.
pub open spec fn same_response_metadata(a: ResponseMetadata, b: ResponseMetadata) -> bool {
    &&& a.model == b.model
    &&& a.finish_reason == b.finish_reason
    &&& a.latency_ms == b.latency_ms
    &&& a.custom@ == b.custom@
}

/// Whether two nodes hold the same values: equal fields, with lists and
/// maps compared by their contents.
pub open spec fn same_node(a: Node, b: Node) -> bool {
    match (a, b) {
        (Node::Session(x), Node::Session(y)) => x.id == y.id && x.node_id == y.node_id && x.created_at == y.created_at
            && x.updated_at == y.updated_at && x.metadata@ == y.metadata@ && x.tags@ == y.tags@ && x.is_active == y.is_active,
        (Node::Prompt(x), Node::Prompt(y)) => x.id == y.id && x.session_id == y.session_id && x.content == y.content
            && same_prompt_metadata(x.metadata, y.metadata) && x.timestamp == y.timestamp && x.template_id == y.template_id
            && x.variables@ == y.variables@,
        (Node::Response(x), Node::Response(y)) => x.id == y.id && x.prompt_id == y.prompt_id && x.timestamp == y.timestamp
            && x.content == y.content && x.usage == y.usage && same_response_metadata(x.metadata, y.metadata),
        (Node::ToolInvocation(x), Node::ToolInvocation(y)) => x.id == y.id && x.response_id == y.response_id
            && x.tool_name == y.tool_name && x.parameters == y.parameters && x.status == y.status && x.result == y.result
            && x.error == y.error && x.duration_ms == y.duration_ms && x.retry_count == y.retry_count
            && x.timestamp == y.timestamp && x.metadata@ == y.metadata@,
        (Node::Agent(x), Node::Agent(y)) => x.id == y.id && x.node_id == y.node_id && x.name == y.name && x.role == y.role
            && x.capabilities@ == y.capabilities@ && x.status == y.status && x.created_at == y.created_at
            && x.metadata@ == y.metadata@,
        (Node::Template(x), Node::Template(y)) => x.id == y.id && x.node_id == y.node_id && x.name == y.name
            && x.template_text == y.template_text && x.variables@ == y.variables@ && x.version == y.version
            && x.usage_count == y.usage_count && x.created_at == y.created_at && x.metadata@ == y.metadata@,
        _ => false,
    }
}

impl PromptMetadata {
    /// A copy of the metadata.
    pub fn duplicate(&self) -> (m: Self)
        ensures
            same_prompt_metadata(m, *self),
    {
        PromptMetadata {
            model: self.model.clone(),
            temperature_bits: self.temperature_bits,
            max_tokens: self.max_tokens,
            tools_available: crate::plugin::copy_strings(&self.tools_available),
            custom: self.custom.duplicate(),
        }
    }
}

impl ResponseMetadata {
    /// A copy of the metadata.
    pub fn duplicate(&self) -> (m: Self)
        ensures
            same_response_metadata(m, *self),
    {
        ResponseMetadata {
            model: self.model.clone(),
            finish_reason: self.finish_reason.clone(),
            latency_ms: self.latency_ms,
            custom: self.custom.duplicate(),
        }
    }
}

impl VariableSpec {
    /// A copy of the variable.
    pub fn duplicate(&self) -> (v: Self)
        ensures
            v == *self,
    {
        VariableSpec {
            name: self.name.clone(),
            type_hint: self.type_hint.clone(),
            required: self.required,
            default_value: copy_opt_string(&self.default_value),
            validation_pattern: copy_opt_string(&self.validation_pattern),
            description: self.description.clone(),
        }
    }
}

/// A copy of a list of template variables.
fn copy_variables(v: &Vec<VariableSpec>) -> (r: Vec<VariableSpec>)
    ensures
        r@ == v@,
{
    let mut out: Vec<VariableSpec> = Vec::new();
    let mut i: usize = 0;
    while i < v.len()
        invariant
            i <= v@.len(),
            out@.len() == i,
            forall|j: int| 0 <= j < i ==> (#[trigger] out@[j]) == v@[j],
        decreases v@.len() - i,
    {
        out.push(v[i].duplicate());
        i = i + 1;
    }
    assert(out@ =~= v@);
    out
}

impl Node {
    /// A copy of the node.
    pub fn duplicate(&self) -> (n: Self)
        ensures
            same_node(n, *self),
    {
        match self {
            Node::Session(x) => Node::Session(x.duplicate()),
            Node::Prompt(x) => Node::Prompt(PromptNode {
                id: x.id,
                session_id: x.session_id,
                content: x.content.clone(),
                metadata: x.metadata.duplicate(),
                timestamp: x.timestamp,
                template_id: x.template_id,
                variables: x.variables.duplicate(),
            }),
            Node::Response(x) => Node::Response(ResponseNode {
                id: x.id,
                prompt_id: x.prompt_id,
                timestamp: x.timestamp,
                content: x.content.clone(),
                usage: x.usage,
                metadata: x.metadata.duplicate(),
            }),
            Node::ToolInvocation(x) => Node::ToolInvocation(ToolInvocation {
                id: x.id,
                response_id: x.response_id,
                tool_name: x.tool_name.clone(),
                parameters: x.parameters.clone(),
                status: x.status.clone(),
                result: copy_opt_string(&x.result),
                error: copy_opt_string(&x.error),
                duration_ms: x.duration_ms,
                retry_count: x.retry_count,
                timestamp: x.timestamp,
                metadata: x.metadata.duplicate(),
            }),
            Node::Agent(x) => Node::Agent(AgentNode {
                id: x.id,
                node_id: x.node_id,
                name: x.name.clone(),
                role: x.role.clone(),
                capabilities: crate::plugin::copy_strings(&x.capabilities),
                status: x.status,
                created_at: x.created_at,
                metadata: x.metadata.duplicate(),
            }),
            Node::Template(x) => Node::Template(PromptTemplate {
                id: x.id,
                node_id: x.node_id,
                name: x.name.clone(),
                template_text: x.template_text.clone(),
                variables: copy_variables(&x.variables),
                version: x.version,
                usage_count: x.usage_count,
                created_at: x.created_at,
                metadata: x.metadata.duplicate(),
            }),
        }
    }
}

/// The kind of a node is its own variant: a session node is of kind
/// `Session`, a prompt node of kind `Prompt`, and so on for every kind.
pub proof fn lemma_node_type_is_variant(n: Node)
    ensures
        node_type_of(&n) == NodeType::Session <==> n is Session,
        node_type_of(&n) == NodeType::Prompt <==> n is Prompt,
        node_type_of(&n) == NodeType::Response <==> n is Response,
        node_type_of(&n) == NodeType::ToolInvocation <==> n is ToolInvocation,
        node_type_of(&n) == NodeType::Agent <==> n is Agent,
        node_type_of(&n) == NodeType::Template <==> n is Template,
{
}

/// Each agent status is written as its own name in lowercase.
pub proof fn lemma_agent_status_names(v: AgentStatus)
    ensures
        agent_status_text(v) == "idle"@ <==> v == AgentStatus::Idle,
        agent_status_text(v) == "busy"@ <==> v == AgentStatus::Busy,
        agent_status_text(v) == "paused"@ <==> v == AgentStatus::Paused,
        agent_status_text(v) == "terminated"@ <==> v == AgentStatus::Terminated,
{
    reveal_strlit("idle");
    reveal_strlit("busy");
    reveal_strlit("paused");
    reveal_strlit("terminated");
    assert("idle"@[0] != "busy"@[0]);
    assert("idle"@.len() != "paused"@.len());
    assert("idle"@.len() != "terminated"@.len());
    assert("busy"@.len() != "paused"@.len());
    assert("busy"@.len() != "terminated"@.len());
    assert("paused"@.len() != "terminated"@.len());
}

} // verus!

use llm_memory_graph::edges::EdgeType;
use llm_memory_graph::error::Error;
use llm_memory_graph::grpc::converters::{
    datetime_to_proto, edge_type_to_proto, error_to_status, node_type_to_proto, parse_node_id,
    parse_session_id, proto_to_datetime, MAX_UTC_SECONDS, MIN_UTC_SECONDS, proto_to_edge_type, proto_to_node_type,
    proto_to_token_usage, token_usage_to_proto,
};
use llm_memory_graph::grpc::handlers::{validate_add_prompt_request, validate_add_response_request, validate_query_request};
use llm_memory_graph::grpc::proto;
use llm_memory_graph::grpc::proto::Code;
use llm_memory_graph::grpc::service::{MemoryGraphServiceImpl, ServiceConfig};
use llm_memory_graph::graph::MemoryGraph;
use llm_memory_graph::props::PropertyMap;
use llm_memory_graph::ids::{NodeId, SessionId, Timestamp};
use llm_memory_graph::nodes::{NodeType, TokenUsage};

#[test]
fn test_node_type_conversion() {
    assert_eq!(node_type_to_proto(NodeType::Prompt), proto::NODE_TYPE_PROMPT);
    assert_eq!(proto_to_node_type(proto::NODE_TYPE_PROMPT).unwrap(), NodeType::Prompt);
}

#[test]
fn test_edge_type_conversion() {
    assert_eq!(edge_type_to_proto(EdgeType::RespondsTo), proto::EDGE_TYPE_RESPONDS_TO);
    assert_eq!(proto_to_edge_type(proto::EDGE_TYPE_RESPONDS_TO).unwrap(), EdgeType::RespondsTo);
}

#[test]
fn test_token_usage_conversion() {
    let usage = TokenUsage { prompt_tokens: 10, completion_tokens: 50, total_tokens: 60 };

    let proto_usage = token_usage_to_proto(usage);
    let converted = proto_to_token_usage(proto_usage);

    assert_eq!(converted.prompt_tokens, 10);
    assert_eq!(converted.completion_tokens, 50);
    assert_eq!(converted.total_tokens, 60);
}

#[test]
fn test_datetime_conversion() {
    let now = chrono::Utc::now();
    let t = Timestamp { seconds: now.timestamp(), nanos: now.timestamp_subsec_nanos() };
    let proto_ts = datetime_to_proto(t);
    let converted = proto_to_datetime(proto_ts).unwrap();

    assert_eq!(now.timestamp(), converted.seconds);
}

#[test]
fn out_of_range_times_refused() {
    let bad = proto::Timestamp { seconds: i64::MAX, nanos: 0 };
    match proto_to_datetime(bad) {
        Err(Error::InvalidInput(m)) => assert_eq!(m, "Invalid timestamp"),
        other => panic!("unexpected {:?}", other),
    }
}

#[test]
fn unknown_wire_numbers_refused() {
    match proto_to_node_type(42) {
        Err(Error::InvalidInput(m)) => assert_eq!(m, "Invalid node type: 42"),
        other => panic!("unexpected {:?}", other),
    }
    match proto_to_edge_type(-7) {
        Err(Error::InvalidInput(m)) => assert_eq!(m, "Invalid edge type: -7"),
        other => panic!("unexpected {:?}", other),
    }
}

#[test]
fn all_types_round_trip_on_the_wire() {
    for t in [NodeType::Session, NodeType::Prompt, NodeType::Response, NodeType::ToolInvocation, NodeType::Agent, NodeType::Template] {
        assert_eq!(proto_to_node_type(node_type_to_proto(t)).unwrap(), t);
    }
    for t in [EdgeType::Follows, EdgeType::RespondsTo, EdgeType::HandledBy, EdgeType::PartOf, EdgeType::Invokes,
        EdgeType::TransfersTo, EdgeType::Instantiates, EdgeType::Inherits, EdgeType::References] {
        assert_eq!(proto_to_edge_type(edge_type_to_proto(t)).unwrap(), t);
    }
}

#[test]
fn errors_become_statuses() {
    let s = error_to_status(Error::SessionNotFound("abc".to_string()));
    assert_eq!(s.code, Code::NotFound);
    assert_eq!(s.message, "Session not found: abc");
    let s = error_to_status(Error::InvalidInput("bad".to_string()));
    assert_eq!(s.code, Code::InvalidArgument);
    assert_eq!(s.message, "bad");
    let s = error_to_status(Error::Timeout(250));
    assert_eq!(s.code, Code::DeadlineExceeded);
    assert_eq!(s.message, "Operation timed out after 250ms");
    let s = error_to_status(Error::QueryError("q".to_string()));
    assert_eq!(s.code, Code::Internal);
    assert_eq!(s.message, "Query error: q");
}

#[test]
fn identifiers_parse() {
    let id = parse_session_id("67e55044-10b1-426f-9247-bb680e5fe0c8").unwrap();
    assert_eq!(id.to_string(), "67e55044-10b1-426f-9247-bb680e5fe0c8");
    match parse_node_id("xyz") {
        Err(Error::InvalidInput(m)) => assert_eq!(m, "Invalid node ID: xyz"),
        other => panic!("unexpected {:?}", other),
    }
    match parse_session_id("") {
        Err(Error::InvalidInput(m)) => assert_eq!(m, "Invalid session ID: "),
        other => panic!("unexpected {:?}", other),
    }
}

#[test]
fn test_validate_add_prompt_request() {
    let valid_req = proto::AddPromptRequest {
        session_id: "test-session".to_string(),
        content: "Test prompt".to_string(),
        metadata: None,
    };
    assert!(validate_add_prompt_request(&valid_req).is_ok());

    let empty_session = proto::AddPromptRequest { session_id: "".to_string(), content: "Test".to_string(), metadata: None };
    assert!(validate_add_prompt_request(&empty_session).is_err());

    let empty_content = proto::AddPromptRequest { session_id: "test".to_string(), content: "".to_string(), metadata: None };
    assert!(validate_add_prompt_request(&empty_content).is_err());
}

#[test]
fn oversized_prompt_refused() {
    let big = proto::AddPromptRequest { session_id: "s".to_string(), content: "é".repeat(500_001), metadata: None };
    let err = validate_add_prompt_request(&big).unwrap_err();
    assert_eq!(err.message, "content exceeds maximum length of 1MB");
    let fits = proto::AddPromptRequest { session_id: "s".to_string(), content: "é".repeat(500_000), metadata: None };
    assert!(validate_add_prompt_request(&fits).is_ok());
}

#[test]
fn response_and_query_requests_checked() {
    let no_usage = proto::AddResponseRequest { prompt_id: "p".to_string(), content: "c".to_string(), token_usage: None, metadata: None };
    assert_eq!(validate_add_response_request(&no_usage).unwrap_err().message, "token_usage is required");
    let ok = proto::AddResponseRequest {
        prompt_id: "p".to_string(),
        content: "c".to_string(),
        token_usage: Some(proto::TokenUsage { prompt_tokens: 1, completion_tokens: 2, total_tokens: 3 }),
        metadata: None,
    };
    assert!(validate_add_response_request(&ok).is_ok());
    let q = proto::QueryRequest { session_id: None, node_type: None, limit: 10_001, offset: 0 };
    assert_eq!(validate_query_request(&q).unwrap_err().message, "limit cannot exceed 10000");
    let q = proto::QueryRequest { session_id: None, node_type: None, limit: 10_000, offset: 0 };
    assert!(validate_query_request(&q).is_ok());
}


fn service() -> MemoryGraphServiceImpl {
    MemoryGraphServiceImpl::new(MemoryGraph::new(), ServiceConfig::default())
}

#[test]
fn service_sessions() {
    let mut svc = service();
    let mut metadata = PropertyMap::new();
    metadata.insert("user".to_string(), "alice".to_string());
    let created = svc.create_session(proto::CreateSessionRequest { metadata }).unwrap();
    assert!(created.is_active);
    assert_eq!(created.metadata.get("user"), Some(&"alice".to_string()));

    let fetched = svc.get_session(proto::GetSessionRequest { session_id: created.id.clone() }).unwrap();
    assert_eq!(fetched.id, created.id);
    assert_eq!(fetched.metadata.get("user"), Some(&"alice".to_string()));

    let bad = svc.get_session(proto::GetSessionRequest { session_id: "nope".to_string() }).unwrap_err();
    assert_eq!(bad.code, Code::InvalidArgument);
    assert_eq!(bad.message, "Invalid session ID: nope");
    let missing = "00000000-0000-0000-0000-000000000001".to_string();
    let gone = svc.get_session(proto::GetSessionRequest { session_id: missing.clone() }).unwrap_err();
    assert_eq!(gone.code, Code::NotFound);
    assert_eq!(gone.message, format!("Session not found: {}", missing));
}

#[test]
fn service_prompts_and_responses() {
    let mut svc = service();
    let session = svc.create_session(proto::CreateSessionRequest { metadata: PropertyMap::new() }).unwrap();
    let prompt = svc
        .add_prompt(proto::AddPromptRequest { session_id: session.id.clone(), content: "Hello".to_string(), metadata: None })
        .unwrap();
    assert_eq!(prompt.content, "Hello");
    assert_eq!(prompt.session_id, session.id);

    let missing_usage = svc
        .add_response(proto::AddResponseRequest {
            prompt_id: prompt.id.clone(),
            content: "Hi".to_string(),
            token_usage: None,
            metadata: None,
        })
        .unwrap_err();
    assert_eq!(missing_usage.code, Code::InvalidArgument);
    assert_eq!(missing_usage.message, "Missing token_usage");

    let response = svc
        .add_response(proto::AddResponseRequest {
            prompt_id: prompt.id.clone(),
            content: "Hi there".to_string(),
            token_usage: Some(proto::TokenUsage { prompt_tokens: 3, completion_tokens: 4, total_tokens: 7 }),
            metadata: None,
        })
        .unwrap();
    assert_eq!(response.prompt_id, prompt.id);
    assert_eq!(response.token_usage.unwrap().total_tokens, 7);

    let no_session = svc
        .add_prompt(proto::AddPromptRequest {
            session_id: "00000000-0000-0000-0000-000000000002".to_string(),
            content: "lost".to_string(),
            metadata: None,
        })
        .unwrap_err();
    assert_eq!(no_session.code, Code::NotFound);

    let node = svc.get_node(proto::GetNodeRequest { node_id: prompt.id.clone() }).unwrap();
    assert_eq!(node.id, prompt.id);
    assert_eq!(node.node_type, proto::NODE_TYPE_PROMPT);
    let unknown = "00000000-0000-0000-0000-000000000003";
    let err = svc.get_node(proto::GetNodeRequest { node_id: unknown.to_string() }).unwrap_err();
    assert_eq!(err.code, Code::NotFound);
    assert_eq!(err.message, format!("Node {} not found", unknown));

    let batch = svc
        .batch_get_nodes(proto::BatchGetNodesRequest { node_ids: vec![prompt.id.clone(), unknown.to_string(), response.id.clone()] })
        .unwrap();
    assert_eq!(batch.nodes.len(), 2);
    assert_eq!(batch.nodes[1].id, response.id);
    let refused = svc
        .batch_get_nodes(proto::BatchGetNodesRequest { node_ids: vec![prompt.id.clone(), "bad".to_string()] })
        .unwrap_err();
    assert_eq!(refused.message, "Invalid node ID: bad");

    let outgoing = svc.get_edges(proto::GetEdgesRequest { node_id: prompt.id.clone(), direction: None }).unwrap();
    assert_eq!(outgoing.edges.len(), 1);
    assert_eq!(outgoing.edges[0].edge_type, proto::EDGE_TYPE_BELONGS_TO);
    let incoming = svc
        .get_edges(proto::GetEdgesRequest { node_id: prompt.id.clone(), direction: Some(proto::EDGE_DIRECTION_INCOMING) })
        .unwrap();
    assert_eq!(incoming.edges.len(), 1);
    assert_eq!(incoming.edges[0].from_node_id, response.id);
    let both = svc
        .get_edges(proto::GetEdgesRequest { node_id: prompt.id.clone(), direction: Some(proto::EDGE_DIRECTION_BOTH) })
        .unwrap();
    assert_eq!(both.edges.len(), 2);
}

#[test]
fn identifier_text_parses_back() {
    for _ in 0..5 {
        let s = SessionId::new();
        assert_eq!(parse_session_id(&s.to_string()).unwrap(), s);
        let n = NodeId::new();
        assert_eq!(parse_node_id(&n.to_string()).unwrap(), n);
    }
    assert_eq!(SessionId::parse("67e55044-10b1-426f-9247-bb680e5fe0c8").unwrap().to_string(), "67e55044-10b1-426f-9247-bb680e5fe0c8");
    assert_eq!(
        NodeId::parse("nope").unwrap_err(),
        uuid::Uuid::parse_str("nope").unwrap_err().to_string()
    );
    let fixed = SessionId::from_u128(0x67e5_5044_10b1_426f_9247_bb68_0e5f_e0c8);
    assert_eq!(fixed.to_string(), "67e55044-10b1-426f-9247-bb680e5fe0c8");
    assert_eq!(parse_session_id(&fixed.to_string()).unwrap(), fixed);
}

#[test]
fn representable_times_are_those_chrono_accepts() {
    let cases: [(i64, i32, bool); 9] = [
        (MIN_UTC_SECONDS, 0, true),
        (MIN_UTC_SECONDS - 1, 999_999_999, false),
        (MAX_UTC_SECONDS, 999_999_999, true),
        (MAX_UTC_SECONDS + 1, 0, false),
        (59, 1_500_000_000, true),
        (58, 1_500_000_000, false),
        (-1, 1_999_999_999, true),
        (0, 2_000_000_000, false),
        (0, -1, false),
    ];
    for (seconds, nanos, ok) in cases {
        let accepted = chrono::DateTime::from_timestamp(seconds, nanos as u32).is_some();
        assert_eq!(accepted, ok, "chrono on {seconds} {nanos}");
        let converted = proto_to_datetime(proto::Timestamp { seconds, nanos });
        assert_eq!(converted.is_ok(), ok, "converter on {seconds} {nanos}");
    }
}

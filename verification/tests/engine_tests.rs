use std::collections::HashSet;

use llm_memory_graph::edges::EdgeType;
use llm_memory_graph::graph::MemoryGraph;
use llm_memory_graph::ids::{AgentId, NodeId, Timestamp};
use llm_memory_graph::nodes::{
    AgentNode, AgentStatus, ConversationSession, Node, NodeType, PromptMetadata, PromptNode, TokenUsage, ToolInvocation,
};
use llm_memory_graph::observatory::metrics::MemoryGraphMetrics;
use llm_memory_graph::props::PropertyMap;
use llm_memory_graph::query::AsyncQueryBuilder;

fn prompt_node(session: &ConversationSession, content: String) -> PromptNode {
    PromptNode {
        id: NodeId::new(),
        session_id: session.id,
        content,
        metadata: PromptMetadata::default(),
        timestamp: Timestamp::now(),
        template_id: None,
        variables: PropertyMap::new(),
    }
}

#[test]
fn test_async_graph_creation() {
    let graph = MemoryGraph::new();
    let stats = graph.stats();
    assert_eq!(stats.node_count, 0);
}

#[test]
fn test_async_session_management() {
    let mut graph = MemoryGraph::new();
    let session = graph.create_session();
    assert!(!session.id.to_string().is_empty());
    let retrieved = graph.get_session(session.id).unwrap();
    assert_eq!(retrieved.id, session.id);
}

#[test]
fn test_async_prompt_and_response() {
    let mut graph = MemoryGraph::new();
    let session = graph.create_session();
    let prompt_id = graph.add_prompt(session.id, "Test prompt".to_string(), None).unwrap();
    let usage = TokenUsage::new(10, 20);
    let response_id = graph.add_response(prompt_id, "Test response".to_string(), usage, None);

    let edges = graph.get_outgoing_edges(response_id);
    assert_eq!(edges.len(), 1);
    assert_eq!(edges[0].edge_type, EdgeType::RespondsTo);
}

#[test]
fn test_concurrent_prompts() {
    let mut graph = MemoryGraph::new();
    let session = graph.create_session();
    for i in 0..100 {
        graph.add_prompt(session.id, format!("Prompt {}", i), None).unwrap();
    }
    let stats = graph.stats();
    assert_eq!(stats.node_count, 101); // 1 session + 100 prompts
}

#[test]
fn test_batch_operations() {
    let mut graph = MemoryGraph::new();
    let session = graph.create_session();
    let prompts = (0..10).map(|i| (session.id, format!("Prompt {}", i))).collect();
    let ids = graph.add_prompts_batch(prompts).unwrap();
    assert_eq!(ids.len(), 10);
    let stats = graph.stats();
    assert_eq!(stats.node_count, 11); // 1 session + 10 prompts
}

#[test]
fn test_agent_operations() {
    let mut graph = MemoryGraph::new();
    let agent = AgentNode {
        id: AgentId::new(),
        node_id: NodeId::new(),
        name: "TestAgent".to_string(),
        role: "tester".to_string(),
        capabilities: vec!["testing".to_string()],
        status: AgentStatus::Idle,
        created_at: Timestamp::now(),
        metadata: PropertyMap::new(),
    };
    let expected = agent.id;
    let node_id = agent.node_id;
    let agent_id = graph.add_agent(agent);
    assert!(!agent_id.to_string().is_empty());
    assert_eq!(agent_id, expected);
    assert!(matches!(graph.get_node(node_id), Some(Node::Agent(a)) if a.name == "TestAgent"));
}

#[test]
fn test_tool_invocation() {
    let mut graph = MemoryGraph::new();
    let session = graph.create_session();
    let prompt_id = graph.add_prompt(session.id, "Calculate 2+2".to_string(), None).unwrap();
    let usage = TokenUsage::new(5, 10);
    let response_id = graph.add_response(prompt_id, "Using calculator...".to_string(), usage, None);
    let tool = ToolInvocation {
        id: NodeId::new(),
        response_id,
        tool_name: "calculator".to_string(),
        parameters: "{\"op\":\"add\",\"a\":2,\"b\":2}".to_string(),
        status: "pending".to_string(),
        result: None,
        error: None,
        duration_ms: None,
        retry_count: None,
        timestamp: Timestamp::now(),
        metadata: PropertyMap::new(),
    };
    let _tool_id = graph.add_tool_invocation(tool);

    let edges = graph.get_outgoing_edges(response_id);
    let invokes_edge = edges.iter().find(|e| e.edge_type == EdgeType::Invokes);
    assert!(invokes_edge.is_some());
}

#[test]
fn test_add_responses_batch() {
    let mut graph = MemoryGraph::new();
    let session = graph.create_session();
    let mut prompt_ids = vec![];
    for i in 0..5 {
        prompt_ids.push(graph.add_prompt(session.id, format!("Prompt {}", i), None).unwrap());
    }
    let responses: Vec<_> = prompt_ids
        .iter()
        .enumerate()
        .map(|(i, &prompt_id)| (prompt_id, format!("Response {}", i), TokenUsage::new(10, 20)))
        .collect();
    let response_ids = graph.add_responses_batch(responses);
    assert_eq!(response_ids.len(), 5);

    for (i, &response_id) in response_ids.iter().enumerate() {
        let node = graph.get_node(response_id);
        assert!(matches!(node, Some(Node::Response(_))));
        let edges = graph.get_outgoing_edges(response_id);
        let responds_to = edges.iter().find(|e| e.edge_type == EdgeType::RespondsTo);
        assert!(responds_to.is_some());
        assert_eq!(responds_to.unwrap().to, prompt_ids[i]);
    }
    let stats = graph.stats();
    assert_eq!(stats.node_count, 11); // 1 session + 5 prompts + 5 responses
}

#[test]
fn test_create_sessions_batch() {
    let mut graph = MemoryGraph::new();
    let sessions = graph.create_sessions_batch(10);
    assert_eq!(sessions.len(), 10);

    let mut ids = HashSet::new();
    for session in &sessions {
        assert!(ids.insert(session.id.to_string()));
    }
    for session in &sessions {
        let retrieved = graph.get_session(session.id).unwrap();
        assert_eq!(retrieved.id, session.id);
    }
    let stats = graph.stats();
    assert_eq!(stats.node_count, 10);
    assert_eq!(stats.session_count, 10);
}

#[test]
fn test_get_nodes_batch() {
    let mut graph = MemoryGraph::new();
    let session = graph.create_session();
    let mut expected_ids = vec![];
    for i in 0..20 {
        expected_ids.push(graph.add_prompt(session.id, format!("Prompt {}", i), None).unwrap());
    }
    let nodes = graph.get_nodes_batch(&expected_ids);
    assert_eq!(nodes.len(), 20);
    for (i, node_opt) in nodes.iter().enumerate() {
        assert!(node_opt.is_some());
        let node = node_opt.unwrap();
        assert_eq!(node.id(), expected_ids[i]);
        if let Node::Prompt(prompt) = node {
            assert_eq!(prompt.content, format!("Prompt {}", i));
        } else {
            panic!("Expected Prompt node");
        }
    }
}

#[test]
fn test_get_nodes_batch_with_missing() {
    let mut graph = MemoryGraph::new();
    let session = graph.create_session();
    let mut ids = vec![];
    for i in 0..3 {
        ids.push(graph.add_prompt(session.id, format!("Prompt {}", i), None).unwrap());
    }
    let fake_id = NodeId::new();
    ids.insert(1, fake_id);

    let nodes = graph.get_nodes_batch(&ids);
    assert_eq!(nodes.len(), 4);
    assert!(nodes[0].is_some());
    assert!(nodes[1].is_none()); // Fake ID
    assert!(nodes[2].is_some());
    assert!(nodes[3].is_some());
}

#[test]
fn test_delete_nodes_batch() {
    let mut graph = MemoryGraph::new();
    let session = graph.create_session();
    let mut ids_to_delete = vec![];
    for i in 0..15 {
        ids_to_delete.push(graph.add_prompt(session.id, format!("Prompt {}", i), None).unwrap());
    }
    let stats = graph.stats();
    assert_eq!(stats.node_count, 16); // 1 session + 15 prompts

    graph.delete_nodes_batch(&ids_to_delete);
    assert_eq!(graph.stats().node_count, 1);
    assert!(ids_to_delete.iter().all(|id| graph.get_node(*id).is_none()));
}

#[test]
fn test_add_conversations_batch() {
    let mut graph = MemoryGraph::new();
    let session = graph.create_session();
    let conversations = vec![
        ((session.id, "Prompt 1".to_string()), Some(("Response 1".to_string(), TokenUsage::new(10, 20)))),
        ((session.id, "Prompt 2".to_string()), None),
        ((session.id, "Prompt 3".to_string()), Some(("Response 3".to_string(), TokenUsage::new(15, 25)))),
        ((session.id, "Prompt 4".to_string()), Some(("Response 4".to_string(), TokenUsage::new(12, 22)))),
        ((session.id, "Prompt 5".to_string()), None),
    ];
    let results = graph.add_conversations_batch(conversations).unwrap();
    assert_eq!(results.len(), 5);

    assert!(results[0].1.is_some());
    assert!(results[1].1.is_none());
    assert!(results[2].1.is_some());
    assert!(results[3].1.is_some());
    assert!(results[4].1.is_none());

    for (prompt_id, _) in &results {
        assert!(matches!(graph.get_node(*prompt_id), Some(Node::Prompt(_))));
    }
    for (prompt_id, response_id_opt) in &results {
        if let Some(response_id) = response_id_opt {
            assert!(matches!(graph.get_node(*response_id), Some(Node::Response(_))));
            let edges = graph.get_outgoing_edges(*response_id);
            let responds_to = edges.iter().find(|e| e.edge_type == EdgeType::RespondsTo);
            assert!(responds_to.is_some());
            assert_eq!(responds_to.unwrap().to, *prompt_id);
        }
    }
    let stats = graph.stats();
    assert_eq!(stats.node_count, 9); // 1 session + 5 prompts + 3 responses
}

#[test]
fn test_empty_batch_operations() {
    let mut graph = MemoryGraph::new();
    let sessions = graph.create_sessions_batch(0);
    assert_eq!(sessions.len(), 0);
    let nodes = graph.get_nodes_batch(&vec![]);
    assert_eq!(nodes.len(), 0);
    graph.delete_nodes_batch(&vec![]);
    let prompts = graph.add_prompts_batch(vec![]).unwrap();
    assert_eq!(prompts.len(), 0);
    let responses = graph.add_responses_batch(vec![]);
    assert_eq!(responses.len(), 0);
    let conversations = graph.add_conversations_batch(vec![]).unwrap();
    assert_eq!(conversations.len(), 0);
}

#[test]
fn test_large_batch_operations() {
    let mut graph = MemoryGraph::new();
    let session = graph.create_session();
    let prompts: Vec<_> = (0..100).map(|i| (session.id, format!("Prompt {}", i))).collect();
    let prompt_ids = graph.add_prompts_batch(prompts).unwrap();
    assert_eq!(prompt_ids.len(), 100);

    let responses: Vec<_> = prompt_ids
        .iter()
        .enumerate()
        .map(|(i, &id)| (id, format!("Response {}", i), TokenUsage::new(10, 20)))
        .collect();
    let response_ids = graph.add_responses_batch(responses);
    assert_eq!(response_ids.len(), 100);

    let nodes = graph.get_nodes_batch(&prompt_ids);
    assert_eq!(nodes.len(), 100);
    assert!(nodes.iter().all(|n| n.is_some()));

    let stats = graph.stats();
    assert_eq!(stats.node_count, 201); // 1 session + 100 prompts + 100 responses
}

#[test]
fn test_batch_concurrent_execution() {
    let mut graph = MemoryGraph::new();
    for i in 0..5 {
        let sessions = graph.create_sessions_batch(2);
        let prompts = vec![
            (sessions[0].id, format!("Task {} Prompt 1", i)),
            (sessions[1].id, format!("Task {} Prompt 2", i)),
        ];
        graph.add_prompts_batch(prompts).unwrap();
    }
    let stats = graph.stats();
    assert_eq!(stats.session_count, 10); // 5 tasks x 2 sessions each
    assert_eq!(stats.node_count, 20); // 10 sessions + 10 prompts
}

#[test]
fn test_query_builder_creation() {
    let graph = MemoryGraph::new();
    let results = AsyncQueryBuilder::new().execute(&graph);
    assert_eq!(results.len(), 0);
}

#[test]
fn test_query_with_session_filter() {
    let mut graph = MemoryGraph::new();
    let session = ConversationSession::new();
    graph.store_node(Node::Session(session.duplicate()));
    for i in 0..5 {
        graph.store_node(Node::Prompt(prompt_node(&session, format!("Prompt {}", i))));
    }
    let results = AsyncQueryBuilder::new().session(session.id).execute(&graph);
    assert_eq!(results.len(), 6); // 1 session + 5 prompts
}

#[test]
fn test_query_with_node_type_filter() {
    let mut graph = MemoryGraph::new();
    let session = ConversationSession::new();
    graph.store_node(Node::Session(session.duplicate()));
    for i in 0..3 {
        graph.store_node(Node::Prompt(prompt_node(&session, format!("Prompt {}", i))));
    }
    let results = AsyncQueryBuilder::new().session(session.id).node_type(NodeType::Prompt).execute(&graph);
    assert_eq!(results.len(), 3);
    for node in results {
        assert!(matches!(node, Node::Prompt(_)));
    }
}

#[test]
fn test_query_with_limit_and_offset() {
    let mut graph = MemoryGraph::new();
    let session = ConversationSession::new();
    graph.store_node(Node::Session(session.duplicate()));
    for i in 0..10 {
        graph.store_node(Node::Prompt(prompt_node(&session, format!("Prompt {}", i))));
    }
    let results = AsyncQueryBuilder::new().session(session.id).node_type(NodeType::Prompt).limit(5).execute(&graph);
    assert_eq!(results.len(), 5);

    let results = AsyncQueryBuilder::new()
        .session(session.id)
        .node_type(NodeType::Prompt)
        .offset(5)
        .limit(3)
        .execute(&graph);
    assert_eq!(results.len(), 3);
}

#[test]
fn recorded_writes_count_into_metrics() {
    let mut graph = MemoryGraph::new();
    let mut metrics = MemoryGraphMetrics::new();
    let session = graph.create_session_recorded(&mut metrics);
    let prompt = graph.add_prompt_recorded(&mut metrics, session.id, "Hello".to_string(), None).unwrap();
    graph.add_response_recorded(&mut metrics, prompt, "Hi".to_string(), TokenUsage::new(1, 2), None);
    let missing = ConversationSession::new();
    assert!(graph.add_prompt_recorded(&mut metrics, missing.id, "lost".to_string(), None).is_err());
    let t = metrics.totals();
    assert_eq!(t.nodes_created, 3);
    assert_eq!(t.prompts_submitted, 1);
    assert_eq!(t.responses_generated, 1);
    assert_eq!(t.write_count, 3);
    assert_eq!(t.edges_created, 0);
    assert_eq!(graph.stats().node_count, 3);
}

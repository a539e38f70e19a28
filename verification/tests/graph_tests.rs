use llm_memory_graph::edges::EdgeType;
use llm_memory_graph::error::Error;
use llm_memory_graph::graph::MemoryGraph;
use llm_memory_graph::ids::{NodeId, SessionId, TemplateId, Timestamp};
use llm_memory_graph::nodes::{Node, NodeType, PromptTemplate, TokenUsage, ToolInvocation, Version};
use llm_memory_graph::props::PropertyMap;
use llm_memory_graph::query::{AsyncQueryBuilder, GraphTraversal, QueryBuilder};
use llm_memory_graph::query::StreamAction;

#[test]
fn test_query_builder() {
    let mut graph = MemoryGraph::new();
    let session = graph.create_session();
    graph.add_prompt(session.id, "Test 1".to_string(), None).unwrap();
    graph.add_prompt(session.id, "Test 2".to_string(), None).unwrap();

    let nodes = QueryBuilder::new().session(session.id).node_type(NodeType::Prompt).execute(&graph).unwrap();

    assert_eq!(nodes.len(), 2);
}

#[test]
fn test_query_limit_offset() {
    let mut graph = MemoryGraph::new();
    let session = graph.create_session();
    for i in 0..5 {
        graph.add_prompt(session.id, format!("Test {i}"), None).unwrap();
    }

    let nodes = QueryBuilder::new().session(session.id).node_type(NodeType::Prompt).limit(2).offset(1).execute(&graph).unwrap();

    assert_eq!(nodes.len(), 2);
}

#[test]
fn test_conversation_thread() {
    let mut graph = MemoryGraph::new();
    let session = graph.create_session();
    let prompt1 = graph.add_prompt(session.id, "First".to_string(), None).unwrap();
    let usage = TokenUsage::new(10, 20);
    let _response1 = graph.add_response(prompt1, "Response 1".to_string(), usage, None);

    let traversal = GraphTraversal::new(&graph);
    let thread = traversal.get_conversation_thread(prompt1).unwrap();

    assert_eq!(thread.len(), 2);
}

#[test]
fn test_find_responses() {
    let mut graph = MemoryGraph::new();
    let session = graph.create_session();
    let prompt_id = graph.add_prompt(session.id, "Test".to_string(), None).unwrap();
    let usage = TokenUsage::new(10, 20);
    let _response_id = graph.add_response(prompt_id, "Response".to_string(), usage, None);

    let traversal = GraphTraversal::new(&graph);
    let responses = traversal.find_responses(prompt_id);

    assert_eq!(responses.len(), 1);
}

#[test]
fn test_query_without_session_fails() {
    let graph = MemoryGraph::new();
    let result = QueryBuilder::new().execute(&graph);
    assert!(result.is_err());
}

#[test]
fn prompt_needs_a_session() {
    let mut graph = MemoryGraph::new();
    let missing = SessionId::from_u128(7);
    match graph.add_prompt(missing, "x".to_string(), None) {
        Err(Error::SessionNotFound(m)) => assert_eq!(m, missing.to_string()),
        other => panic!("unexpected {:?}", other),
    }
    assert_eq!(graph.stats().node_count, 0);
}

#[test]
fn writes_are_read_back() {
    let mut graph = MemoryGraph::new();
    let session = graph.create_session();
    let p = graph.add_prompt(session.id, "hello".to_string(), None).unwrap();
    match graph.get_node(p) {
        Some(Node::Prompt(prompt)) => {
            assert_eq!(prompt.content, "hello");
            assert_eq!(prompt.session_id, session.id);
        }
        other => panic!("unexpected {:?}", other),
    }
    let r = graph.add_response(p, "hi".to_string(), TokenUsage::new(1, 2), None);
    let out = graph.get_outgoing_edges(r);
    assert_eq!(out.len(), 1);
    assert_eq!(out[0].edge_type, EdgeType::RespondsTo);
    assert_eq!(out[0].to, p);
    let into_session = graph.get_incoming_edges(session.node_id);
    assert_eq!(into_session.len(), 1);
    assert_eq!(into_session[0].edge_type, EdgeType::PartOf);
    let stats = graph.stats();
    assert_eq!(stats.node_count, 3);
    assert_eq!(stats.edge_count, 2);
    assert_eq!(stats.session_count, 1);
    assert_eq!(graph.get_session(session.id).unwrap().node_id, session.node_id);
    assert_eq!(graph.get_session_nodes(session.id).len(), 3);
    graph.delete_node(r);
    assert!(graph.get_node(r).is_none());
}

#[test]
fn thread_is_oldest_first_and_query_newest_first() {
    let mut graph = MemoryGraph::new();
    let session = graph.create_session();
    let p1 = graph.add_prompt(session.id, "one".to_string(), None).unwrap();
    let r1 = graph.add_response(p1, "a".to_string(), TokenUsage::new(1, 1), None);
    let p2 = graph.add_prompt(session.id, "two".to_string(), None).unwrap();
    let thread = GraphTraversal::new(&graph).get_conversation_thread(r1).unwrap();
    let times: Vec<_> = thread.iter().map(|n| n.time()).collect();
    for w in times.windows(2) {
        assert!(w[0].le(&w[1]));
    }
    assert_eq!(thread.len(), 3);
    let newest = QueryBuilder::new().session(session.id).node_type(NodeType::Prompt).execute(&graph).unwrap();
    assert_eq!(newest.len(), 2);
    assert!(newest[1].time().le(&newest[0].time()));
    let ids: Vec<NodeId> = newest.iter().map(|n| n.id()).collect();
    assert!(ids.contains(&p1) && ids.contains(&p2));
    let paged = AsyncQueryBuilder::new().session(session.id).offset(10).execute(&graph);
    assert!(paged.is_empty());
    assert!(AsyncQueryBuilder::new().execute(&graph).is_empty());
}

#[test]
fn tool_invocations_are_linked() {
    let mut graph = MemoryGraph::new();
    let session = graph.create_session();
    let p = graph.add_prompt(session.id, "Calculate 2+2".to_string(), None).unwrap();
    let r = graph.add_response(p, "Using calculator...".to_string(), TokenUsage::new(5, 10), None);
    let tool = ToolInvocation {
        id: NodeId::new(),
        response_id: r,
        tool_name: "calculator".to_string(),
        parameters: "{\"op\":\"add\",\"a\":2,\"b\":2}".to_string(),
        status: "pending".to_string(),
        result: None,
        error: None,
        duration_ms: None,
        retry_count: None,
        timestamp: llm_memory_graph::ids::Timestamp::now(),
        metadata: PropertyMap::new(),
    };
    let t = graph.add_tool_invocation(tool);
    let edges = graph.get_outgoing_edges(r);
    assert!(edges.iter().any(|e| e.edge_type == EdgeType::Invokes && e.to == t));
    let thread = GraphTraversal::new(&graph).get_conversation_thread(t).unwrap();
    assert_eq!(thread.len(), 2);
    match GraphTraversal::new(&graph).get_conversation_thread(NodeId::from_u128(1)) {
        Err(Error::NodeNotFound(_)) => {}
        other => panic!("unexpected {:?}", other),
    }
}

#[test]
fn test_query_streaming() {
    let mut graph = MemoryGraph::new();
    let session = graph.create_session();
    for i in 0..10 {
        graph.add_prompt(session.id, format!("Prompt {}", i), None).unwrap();
    }
    let query = AsyncQueryBuilder::new().session(session.id).node_type(NodeType::Prompt);
    let streamed = query.execute_stream(&graph);
    assert_eq!(streamed.len(), 10);
    // store order: the first prompt comes first
    match streamed[0] {
        Node::Prompt(p) => assert_eq!(p.content, "Prompt 0"),
        _ => panic!("expected a prompt"),
    }
}

#[test]
fn test_query_count() {
    let mut graph = MemoryGraph::new();
    let session = graph.create_session();
    for i in 0..7 {
        graph.add_prompt(session.id, format!("Prompt {}", i), None).unwrap();
    }
    let count = AsyncQueryBuilder::new().session(session.id).node_type(NodeType::Prompt).count(&graph);
    assert_eq!(count, 7);
    // the session node itself counts without a kind filter
    assert_eq!(AsyncQueryBuilder::new().session(session.id).count(&graph), 8);
    assert_eq!(AsyncQueryBuilder::new().count(&graph), 0);
}

#[test]
fn test_streaming_with_limit() {
    let mut graph = MemoryGraph::new();
    let session = graph.create_session();
    for i in 0..20 {
        graph.add_prompt(session.id, format!("Prompt {}", i), None).unwrap();
    }
    let query = AsyncQueryBuilder::new().session(session.id).node_type(NodeType::Prompt).limit(5);
    assert_eq!(query.execute_stream(&graph).len(), 5);
}

#[test]
fn streaming_offset_skips_in_store_order() {
    let mut graph = MemoryGraph::new();
    let session = graph.create_session();
    for i in 0..10 {
        graph.add_prompt(session.id, format!("Prompt {}", i), None).unwrap();
    }
    let query = AsyncQueryBuilder::new().session(session.id).node_type(NodeType::Prompt).offset(5).limit(3);
    let streamed = query.execute_stream(&graph);
    assert_eq!(streamed.len(), 3);
    match streamed[0] {
        Node::Prompt(p) => assert_eq!(p.content, "Prompt 5"),
        _ => panic!("expected a prompt"),
    }
}

#[test]
fn stream_step_decisions() {
    let mut graph = MemoryGraph::new();
    let session = graph.create_session();
    let p = graph.add_prompt(session.id, "Hello".to_string(), None).unwrap();
    let prompt = graph.get_node(p).unwrap();
    let query = AsyncQueryBuilder::new().session(session.id).node_type(NodeType::Prompt).offset(1).limit(1);
    let start = query.stream_cursor();
    assert_eq!(start.skipped, 0);
    assert_eq!(start.emitted, 0);
    // an error is handed on and leaves the cursor alone
    let err = Error::InvalidInput("broken".to_string());
    let (c, a) = query.stream_step(start, Err(&err));
    assert_eq!(a, StreamAction::Yield);
    assert_eq!(c, start);
    // the first match is skipped for the offset
    let (c, a) = query.stream_step(start, Ok(prompt));
    assert_eq!(a, StreamAction::Skip);
    assert_eq!(c.skipped, 1);
    // the next one is handed out
    let (c, a) = query.stream_step(c, Ok(prompt));
    assert_eq!(a, StreamAction::Yield);
    assert_eq!(c.emitted, 1);
    // and then the limit is reached
    let (_, a) = query.stream_step(c, Ok(prompt));
    assert_eq!(a, StreamAction::Finish);
    // a node of another kind is dropped
    let only_sessions = AsyncQueryBuilder::new().session(session.id).node_type(NodeType::Session);
    let (c, a) = only_sessions.stream_step(start, Ok(prompt));
    assert_eq!(a, StreamAction::Skip);
    assert_eq!(c, start);
}


fn template(name: &str) -> PromptTemplate {
    PromptTemplate {
        id: TemplateId::new(),
        node_id: NodeId::new(),
        name: name.to_string(),
        template_text: "Hello {{name}}!".to_string(),
        variables: vec![],
        version: Version { major: 1, minor: 0, patch: 0 },
        usage_count: 0,
        created_at: Timestamp::now(),
        metadata: PropertyMap::new(),
    }
}

#[test]
fn test_template_operations() {
    let mut graph = MemoryGraph::new();
    let t = template("Test Template");
    let expected = t.id;
    let node_id = t.node_id;
    let template_id = graph.create_template(t);
    assert_eq!(template_id, expected);
    assert_eq!(graph.get_template(template_id).unwrap().name, "Test Template");
    assert_eq!(graph.get_template_by_node_id(node_id).unwrap().id, template_id);

    let mut changed = template("Test Template");
    changed.id = template_id;
    changed.node_id = node_id;
    changed.usage_count = 5;
    graph.update_template(changed);
    assert_eq!(graph.get_template_by_node_id(node_id).unwrap().usage_count, 5);

    let missing = TemplateId::new();
    match graph.get_template(missing) {
        Err(Error::NodeNotFound(m)) => assert_eq!(m, format!("Template {}", missing.to_string())),
        _ => panic!("expected a missing template"),
    }
    let session = graph.create_session();
    match graph.get_template_by_node_id(session.node_id) {
        Err(Error::NodeNotFound(m)) => assert_eq!(m, session.node_id.to_string()),
        _ => panic!("a session is no template"),
    }
}

#[test]
fn template_inheritance_and_instantiation_edges() {
    let mut graph = MemoryGraph::new();
    let base = template("Base");
    let base_node = base.node_id;
    graph.create_template(base);
    let child = template("Child");
    let child_node = child.node_id;
    graph.create_template_from_parent(child, base_node);
    let inherits = graph.get_outgoing_edges(child_node);
    assert_eq!(inherits.len(), 1);
    assert_eq!(inherits[0].edge_type, EdgeType::Inherits);
    assert_eq!(inherits[0].to, base_node);

    let session = graph.create_session();
    let p = graph.add_prompt(session.id, "Hello Alice!".to_string(), None).unwrap();
    graph.link_prompt_to_template(p, child_node);
    let incoming = graph.get_incoming_edges(child_node);
    assert!(incoming.iter().any(|e| e.edge_type == EdgeType::Instantiates && e.from == p));
}

#[test]
fn batch_operations() {
    let mut graph = MemoryGraph::new();
    let sessions = graph.create_sessions_batch(3);
    assert_eq!(sessions.len(), 3);
    assert_eq!(graph.stats().session_count, 3);

    let ids = graph
        .add_prompts_batch(vec![(sessions[0].id, "Q1".to_string()), (sessions[1].id, "Q2".to_string())])
        .unwrap();
    assert_eq!(ids.len(), 2);
    let responses = graph.add_responses_batch(vec![
        (ids[0], "A1".to_string(), TokenUsage::new(1, 2)),
        (ids[1], "A2".to_string(), TokenUsage::new(3, 4)),
    ]);
    assert_eq!(responses.len(), 2);

    let found = graph.get_nodes_batch(&vec![ids[0], NodeId::new(), responses[1]]);
    assert!(matches!(found[0], Some(Node::Prompt(p)) if p.content == "Q1"));
    assert!(found[1].is_none());
    assert!(matches!(found[2], Some(Node::Response(r)) if r.content == "A2"));

    graph.delete_nodes_batch(&vec![ids[0], responses[0]]);
    assert!(graph.get_node(ids[0]).is_none());
    assert!(graph.get_node(responses[0]).is_none());
    assert!(graph.get_node(ids[1]).is_some());
}

#[test]
fn prompts_batch_stops_at_a_missing_session() {
    let mut graph = MemoryGraph::new();
    let session = graph.create_session();
    let missing = SessionId::new();
    let before = graph.stats().node_count;
    match graph.add_prompts_batch(vec![
        (session.id, "kept".to_string()),
        (missing, "refused".to_string()),
        (session.id, "never added".to_string()),
    ]) {
        Err(Error::SessionNotFound(m)) => assert_eq!(m, missing.to_string()),
        _ => panic!("expected a missing session"),
    }
    assert_eq!(graph.stats().node_count, before + 1);
}

#[test]
fn conversations_batch() {
    let mut graph = MemoryGraph::new();
    let session = graph.create_session();
    let outs = graph
        .add_conversations_batch(vec![
            ((session.id, "What is Rust?".to_string()), Some(("A systems language".to_string(), TokenUsage::new(5, 30)))),
            ((session.id, "And async?".to_string()), None),
        ])
        .unwrap();
    assert_eq!(outs.len(), 2);
    assert!(outs[0].1.is_some());
    assert!(outs[1].1.is_none());
    let responses = GraphTraversal::new(&graph).find_responses(outs[0].0);
    assert_eq!(responses.len(), 1);
}

#[test]
fn store_batches_replace_by_identifier() {
    let mut graph = MemoryGraph::new();
    let t = template("One");
    let node_id = t.node_id;
    let mut again = template("Two");
    again.node_id = node_id;
    let ids = graph.store_nodes_batch(vec![Node::Template(t), Node::Template(again)]);
    assert_eq!(ids, vec![node_id, node_id]);
    assert_eq!(graph.stats().node_count, 1);
    assert_eq!(graph.get_template_by_node_id(node_id).unwrap().name, "Two");
}

#[test]
fn test_bfs_traversal() {
    let mut graph = MemoryGraph::new();
    let session = graph.create_session();
    let prompt_id = graph.add_prompt(session.id, "Test".to_string(), None).unwrap();

    let traversal = GraphTraversal::new(&graph);
    let nodes = traversal.bfs(prompt_id).unwrap();

    assert!(!nodes.is_empty());
    assert_eq!(nodes[0], prompt_id);
}

#[test]
fn walks_follow_edge_direction() {
    let mut graph = MemoryGraph::new();
    let session = graph.create_session();
    let p1 = graph.add_prompt(session.id, "Q1".to_string(), None).unwrap();
    let r1 = graph.add_response(p1, "A1".to_string(), TokenUsage::new(1, 1), None);
    let p2 = graph.add_prompt(session.id, "Q2".to_string(), None).unwrap();

    let traversal = GraphTraversal::new(&graph);
    // response -> prompt -> session
    let from_response = traversal.bfs(r1).unwrap();
    assert_eq!(from_response, vec![r1, p1, session.node_id]);
    let depth_first = traversal.dfs(r1).unwrap();
    assert_eq!(depth_first, vec![r1, p1, session.node_id]);
    // nothing leaves the session node
    assert_eq!(traversal.bfs(session.node_id).unwrap(), vec![session.node_id]);
    // the second prompt reaches only the session
    let from_p2 = traversal.bfs(p2).unwrap();
    assert_eq!(from_p2, vec![p2, session.node_id]);
    // an unknown node is visited alone
    let lone = NodeId::new();
    assert_eq!(traversal.dfs(lone).unwrap(), vec![lone]);
}

#[test]
fn query_pages_past_the_end_are_empty() {
    let mut graph = MemoryGraph::new();
    let session = graph.create_session();
    for i in 0..3 {
        graph.add_prompt(session.id, format!("Test {i}"), None).unwrap();
    }
    let past = QueryBuilder::new().session(session.id).node_type(NodeType::Prompt).offset(10).execute(&graph).unwrap();
    assert!(past.is_empty());
    let wide = QueryBuilder::new()
        .session(session.id)
        .node_type(NodeType::Prompt)
        .offset(2)
        .limit(usize::MAX)
        .execute(&graph)
        .unwrap();
    assert_eq!(wide.len(), 1);
}

#[test]
fn breadth_first_and_depth_first_orders_differ() {
    let mut graph = MemoryGraph::new();
    let [a, b, c, d, e] = [NodeId::new(), NodeId::new(), NodeId::new(), NodeId::new(), NodeId::new()];
    graph.add_edge(a, b, EdgeType::Follows);
    graph.add_edge(a, c, EdgeType::Follows);
    graph.add_edge(b, d, EdgeType::Follows);
    graph.add_edge(c, e, EdgeType::Follows);
    let traversal = GraphTraversal::new(&graph);

    let wide = traversal.bfs(a).unwrap();
    assert_eq!(wide.len(), 5);
    assert_eq!(wide[0], a);
    // both children of the start come before both grandchildren
    let pos = |x: NodeId, v: &Vec<NodeId>| v.iter().position(|y| *y == x).unwrap();
    assert!(pos(b, &wide).max(pos(c, &wide)) < pos(d, &wide).min(pos(e, &wide)));

    let deep = traversal.dfs(a).unwrap();
    assert_eq!(deep.len(), 5);
    assert_eq!(deep[0], a);
    // the first child is followed by its own child before the other child
    if deep[1] == b {
        assert_eq!(deep[2..].to_vec(), vec![d, c, e]);
    } else {
        assert_eq!(deep[1..].to_vec(), vec![c, e, b, d]);
    }
}

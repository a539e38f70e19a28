use llm_memory_graph::cli::{padded, session_command, CommandError, session_report, stats_report, verify_report, OutputFormat};
use llm_memory_graph::error::Error;
use llm_memory_graph::graph::MemoryGraph;
use llm_memory_graph::ids::Timestamp;
use llm_memory_graph::nodes::ConversationSession;
use llm_memory_graph::props::PropertyMap;
use llm_memory_graph::storage::StorageStats;

#[test]
fn output_format_parses_any_case() {
    assert_eq!(OutputFormat::parse("text"), Ok(OutputFormat::Text));
    assert_eq!(OutputFormat::parse("JSON"), Ok(OutputFormat::Json));
    assert_eq!("Text".parse::<OutputFormat>(), Ok(OutputFormat::Text));
    assert_eq!(
        OutputFormat::parse("xml"),
        Err("Invalid format: xml. Use 'text' or 'json'".to_string())
    );
}

#[test]
fn padding_matches_width_formatting() {
    assert_eq!(padded("Nodes:", 15), format!("{:15}", "Nodes:"));
    assert_eq!(padded("a very long label indeed", 5), "a very long label indeed");
}

#[test]
fn stats_report_lines() {
    let stats = StorageStats { node_count: 12, edge_count: 7, storage_bytes: 0, session_count: 2 };
    let lines = stats_report(&stats);
    assert_eq!(lines[0], "Database Statistics");
    assert_eq!(lines[1], "===================");
    assert_eq!(lines[2], format!("{:20} {}", "Total Nodes:", 12));
    assert_eq!(lines[3], format!("{:20} {}", "Total Edges:", 7));
    assert_eq!(lines[4], format!("{:20} {}", "Total Sessions:", 2));
}

#[test]
fn verify_report_lines() {
    let stats = StorageStats { node_count: 3, edge_count: 1, storage_bytes: 0, session_count: 1 };
    let lines = verify_report(&stats);
    assert_eq!(
        lines,
        vec![
            "✓ Verified 3 nodes".to_string(),
            "✓ Verified 1 edges".to_string(),
            "✓ Verified 1 sessions".to_string(),
            String::new(),
            "✓ Database verification complete".to_string(),
        ]
    );
}

#[test]
fn session_times_are_written_in_utc() {
    let mut session = ConversationSession::new();
    session.created_at = Timestamp { seconds: 1_700_000_000, nanos: 5 };
    let lines = session_report(&session, 0);
    assert_eq!(lines[2], format!("{:15} {}", "Created:", "2023-11-14 22:13:20"));
}

#[test]
fn session_report_lines() {
    let mut metadata = PropertyMap::new();
    metadata.insert("user".to_string(), "alice".to_string());
    let mut session = ConversationSession::with_metadata(metadata);
    session.created_at = Timestamp { seconds: 0, nanos: 0 };
    session.updated_at = Timestamp { seconds: 60, nanos: 0 };
    session.tags.push("demo".to_string());
    let lines = session_report(&session, 4);
    assert_eq!(lines[0], format!("Session: {}", session.id.to_string()));
    assert_eq!(lines[1], "====================");
    assert_eq!(lines[2], format!("{:15} {}", "Created:", "1970-01-01 00:00:00"));
    assert_eq!(lines[3], format!("{:15} {}", "Updated:", "1970-01-01 00:01:00"));
    assert_eq!(lines[4], format!("{:15} {}", "Nodes:", 4));
    assert_eq!(lines[5], "");
    assert_eq!(lines[6], "Metadata:");
    assert_eq!(lines[7], format!("  {:13} {}", "user:", "alice"));
    assert_eq!(lines[8], "");
    assert_eq!(lines[9], "Tags:");
    assert_eq!(lines[10], "  - demo");
    assert_eq!(lines.len(), 11);
}

#[test]
fn session_command_on_graph() {
    let mut graph = MemoryGraph::new();
    let session = graph.create_session();
    graph.add_prompt(session.id, "Hi".to_string(), None).unwrap();
    let lines = session_command(&graph, &session.id.to_string()).unwrap();
    assert_eq!(lines[4], format!("{:15} {}", "Nodes:", 2));

    match session_command(&graph, "not-a-uuid") {
        Err(e @ CommandError::BadId(_)) => {
            let expected = uuid::Uuid::parse_str("not-a-uuid").unwrap_err().to_string();
            assert_eq!(e.to_string(), expected);
        }
        other => panic!("unexpected {:?}", other),
    }
    let other = ConversationSession::new();
    match session_command(&graph, &other.id.to_string()) {
        Err(CommandError::Graph(Error::SessionNotFound(m))) => assert_eq!(m, other.id.to_string()),
        other => panic!("unexpected {:?}", other),
    }
}

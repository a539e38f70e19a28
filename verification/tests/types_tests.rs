use llm_memory_graph::text::{parse_u32, parse_unsigned_u64};
use llm_memory_graph::config::Config;
use llm_memory_graph::edges::{
    ContextType, Edge, EdgeType, InheritsProperties, InstantiatesProperties, InvokesProperties,
    Priority, TransfersToProperties,
};
use llm_memory_graph::ids::{AgentId, EdgeId, NodeId, SessionId, TemplateId, Timestamp};
use llm_memory_graph::props::PropertyMap;

#[test]
fn test_default_config() {
    let config = Config::default();
    assert_eq!(config.cache_size_mb, 100);
    assert!(config.enable_wal);
}

#[test]
fn test_builder_pattern() {
    let config = Config::new("./test.db")
        .with_cache_size(200)
        .with_wal(false)
        .with_compression(5)
        .with_flush_interval(2000);

    assert_eq!(config.cache_size_mb, 200);
    assert!(!config.enable_wal);
    assert_eq!(config.compression_level, 5);
    assert_eq!(config.flush_interval_ms, 2000);
}

#[test]
fn test_compression_clamping() {
    let config = Config::default().with_compression(15);
    assert_eq!(config.compression_level, 9);
}

#[test]
fn default_config_path() {
    let config = Config::default();
    assert_eq!(config.path, "./data/graph.db");
    assert_eq!(config.compression_level, 3);
    assert_eq!(config.flush_interval_ms, 1000);
}

#[test]
fn compression_at_limit_kept() {
    assert_eq!(Config::default().with_compression(9).compression_level, 9);
    assert_eq!(Config::default().with_compression(10).compression_level, 9);
    assert_eq!(Config::default().with_compression(0).compression_level, 0);
}

#[test]
fn test_edge_creation() {
    let from = NodeId::new();
    let to = NodeId::new();
    let edge = Edge::new(from, to, EdgeType::Follows);
    assert_eq!(edge.from, from);
    assert_eq!(edge.to, to);
    assert_eq!(edge.edge_type, EdgeType::Follows);
}

#[test]
fn test_edge_properties() {
    let from = NodeId::new();
    let to = NodeId::new();
    let mut edge = Edge::new(from, to, EdgeType::RespondsTo);
    edge.add_property("latency_ms".to_string(), "150".to_string());
    assert_eq!(edge.get_property("latency_ms"), Some(&"150".to_string()));
}

#[test]
fn test_edge_with_properties() {
    let from = NodeId::new();
    let to = NodeId::new();
    let mut props = PropertyMap::new();
    props.insert("test".to_string(), "value".to_string());
    let edge = Edge::with_properties(from, to, EdgeType::HandledBy, props);
    assert_eq!(edge.properties.len(), 1);
}

#[test]
fn test_invokes_edge_creation() {
    let response_id = NodeId::new();
    let tool_id = NodeId::new();
    let mut edge = Edge::new(response_id, tool_id, EdgeType::Invokes);

    edge.add_property("invocation_order".to_string(), "1".to_string());
    edge.add_property("success".to_string(), "true".to_string());
    edge.add_property("required".to_string(), "false".to_string());

    assert_eq!(edge.edge_type, EdgeType::Invokes);
    assert_eq!(edge.get_property("invocation_order"), Some(&"1".to_string()));
    assert_eq!(edge.get_property("success"), Some(&"true".to_string()));
}

#[test]
fn test_instantiates_properties_creation() {
    let mut bindings = PropertyMap::new();
    bindings.insert("name".to_string(), "Alice".to_string());
    bindings.insert("age".to_string(), "30".to_string());

    let props = InstantiatesProperties::new("1.2.3".to_string(), bindings.clone());

    assert_eq!(props.template_version, "1.2.3");
    assert_eq!(props.variable_bindings.len(), 2);
    assert_eq!(props.variable_bindings.get("name"), Some(&"Alice".to_string()));
}

#[test]
fn test_instantiates_properties_serialization() {
    let mut bindings = PropertyMap::new();
    bindings.insert("var1".to_string(), "value1".to_string());

    let props = InstantiatesProperties::new("2.0.0".to_string(), bindings);
    let map = props.to_properties();

    assert_eq!(map.get("template_version"), Some(&"2.0.0".to_string()));
    assert!(map.contains_key("variable_bindings"));
    assert!(map.contains_key("instantiation_time"));
}

#[test]
fn test_instantiates_properties_deserialization() {
    let mut bindings = PropertyMap::new();
    bindings.insert("key".to_string(), "value".to_string());

    let props = InstantiatesProperties::new("1.0.0".to_string(), bindings);
    let map = props.to_properties();
    let restored = InstantiatesProperties::from_properties(&map).unwrap();

    assert_eq!(restored.template_version, "1.0.0");
    assert_eq!(restored.variable_bindings.get("key"), Some(&"value".to_string()));
}

#[test]
fn test_instantiates_edge_builder() {
    let prompt_id = NodeId::new();
    let template_id = NodeId::new();
    let mut bindings = PropertyMap::new();
    bindings.insert("name".to_string(), "Bob".to_string());

    let props = InstantiatesProperties::new("3.0.0".to_string(), bindings);
    let edge = Edge::instantiates(prompt_id, template_id, props);

    assert_eq!(edge.edge_type, EdgeType::Instantiates);
    assert_eq!(edge.from, prompt_id);
    assert_eq!(edge.to, template_id);

    let extracted = edge.get_instantiates_properties().unwrap();
    assert_eq!(extracted.template_version, "3.0.0");
}

#[test]
fn instantiates_time_survives_round_trip() {
    let props = InstantiatesProperties::new("1.0.0".to_string(), PropertyMap::new());
    let map = props.to_properties();
    let restored = InstantiatesProperties::from_properties(&map).unwrap();
    assert_eq!(restored.instantiation_time, props.instantiation_time);
}

#[test]
fn instantiates_requires_version() {
    let map = PropertyMap::new();
    let err = InstantiatesProperties::from_properties(&map).unwrap_err();
    assert_eq!(err, "Missing template_version");
}

#[test]
fn test_inherits_properties_creation() {
    let sections = vec!["variables".to_string(), "description".to_string()];
    let props = InheritsProperties::new(sections.clone(), "Added validation rules".to_string(), 2);

    assert_eq!(props.override_sections.len(), 2);
    assert_eq!(props.version_diff, "Added validation rules");
    assert_eq!(props.inheritance_depth, 2);
}

#[test]
fn test_inherits_properties_round_trip() {
    let props = InheritsProperties::new(vec!["template".to_string()], "Changed structure".to_string(), 1);
    let map = props.to_properties();
    let restored = InheritsProperties::from_properties(&map).unwrap();

    assert_eq!(restored.override_sections.len(), 1);
    assert_eq!(restored.version_diff, "Changed structure");
    assert_eq!(restored.inheritance_depth, 1);
}

#[test]
fn test_inherits_edge_builder() {
    let child_id = NodeId::new();
    let parent_id = NodeId::new();

    let props = InheritsProperties::new(vec!["all".to_string()], "Complete rewrite".to_string(), 1);
    let edge = Edge::inherits(child_id, parent_id, props);

    assert_eq!(edge.edge_type, EdgeType::Inherits);
    let extracted = edge.get_inherits_properties().unwrap();
    assert_eq!(extracted.override_sections[0], "all");
}

#[test]
fn inherits_sections_written_as_json() {
    let props = InheritsProperties::new(vec!["a\"b".to_string(), "c".to_string()], "d".to_string(), 7);
    let map = props.to_properties();
    assert_eq!(map.get("override_sections"), Some(&"[\"a\\\"b\",\"c\"]".to_string()));
    assert_eq!(map.get("inheritance_depth"), Some(&"7".to_string()));
}

#[test]
fn inherits_defaults_when_unreadable() {
    let mut map = PropertyMap::new();
    map.insert("version_diff".to_string(), "x".to_string());
    map.insert("override_sections".to_string(), "not json".to_string());
    map.insert("inheritance_depth".to_string(), "-3".to_string());
    let p = InheritsProperties::from_properties(&map).unwrap();
    assert_eq!(p.override_sections.len(), 0);
    assert_eq!(p.inheritance_depth, 1);
    let empty = PropertyMap::new();
    assert_eq!(InheritsProperties::from_properties(&empty).unwrap_err(), "Missing version_diff");
}

#[test]
fn test_invokes_properties_creation() {
    let props = InvokesProperties::new(0, true, true);

    assert_eq!(props.invocation_order, 0);
    assert!(props.success);
    assert!(props.required);
}

#[test]
fn test_invokes_properties_serialization() {
    let props = InvokesProperties::new(5, false, true);
    let map = props.to_properties();

    assert_eq!(map.get("invocation_order"), Some(&"5".to_string()));
    assert_eq!(map.get("success"), Some(&"false".to_string()));
    assert_eq!(map.get("required"), Some(&"true".to_string()));
}

#[test]
fn test_invokes_properties_deserialization() {
    let props = InvokesProperties::new(3, true, false);
    let map = props.to_properties();
    let restored = InvokesProperties::from_properties(&map).unwrap();

    assert_eq!(restored.invocation_order, 3);
    assert!(restored.success);
    assert!(!restored.required);
}

#[test]
fn invokes_order_parsing_edges() {
    let mut map = PropertyMap::new();
    map.insert("invocation_order".to_string(), "4294967295".to_string());
    assert_eq!(InvokesProperties::from_properties(&map).unwrap().invocation_order, u32::MAX);
    map.insert("invocation_order".to_string(), "4294967296".to_string());
    assert_eq!(InvokesProperties::from_properties(&map).unwrap_err(), "Missing or invalid invocation_order");
    map.insert("invocation_order".to_string(), "+12".to_string());
    map.insert("success".to_string(), "TRUE".to_string());
    let p = InvokesProperties::from_properties(&map).unwrap();
    assert_eq!(p.invocation_order, 12);
    assert!(!p.success);
    assert!(!p.required);
}

#[test]
fn test_invokes_edge_builder() {
    let response_id = NodeId::new();
    let tool_id = NodeId::new();

    let props = InvokesProperties::new(1, true, true);
    let edge = Edge::invokes(response_id, tool_id, props);

    assert_eq!(edge.edge_type, EdgeType::Invokes);
    let extracted = edge.get_invokes_properties().unwrap();
    assert_eq!(extracted.invocation_order, 1);
    assert!(extracted.success);
}

#[test]
fn test_priority_display() {
    assert_eq!(Priority::Low.to_string(), "low");
    assert_eq!(Priority::Normal.to_string(), "normal");
    assert_eq!(Priority::High.to_string(), "high");
    assert_eq!(Priority::Critical.to_string(), "critical");
}

#[test]
fn test_priority_from_str() {
    assert_eq!("low".parse::<Priority>().unwrap(), Priority::Low);
    assert_eq!("normal".parse::<Priority>().unwrap(), Priority::Normal);
    assert_eq!("high".parse::<Priority>().unwrap(), Priority::High);
    assert_eq!("critical".parse::<Priority>().unwrap(), Priority::Critical);
    assert_eq!("NORMAL".parse::<Priority>().unwrap(), Priority::Normal);
    assert!("invalid".parse::<Priority>().is_err());
}

#[test]
fn priority_error_message() {
    assert_eq!("urgent".parse::<Priority>().unwrap_err(), "Invalid priority: urgent");
}

#[test]
fn test_transfers_to_properties_creation() {
    let props = TransfersToProperties::new(
        "User needs expert help".to_string(),
        "Discussed technical architecture".to_string(),
        Priority::High,
    );

    assert_eq!(props.handoff_reason, "User needs expert help");
    assert_eq!(props.context_summary, "Discussed technical architecture");
    assert_eq!(props.priority, Priority::High);
}

#[test]
fn test_transfers_to_properties_round_trip() {
    let props = TransfersToProperties::new("Escalation needed".to_string(), "Complex issue".to_string(), Priority::Critical);
    let map = props.to_properties();
    let restored = TransfersToProperties::from_properties(&map).unwrap();

    assert_eq!(restored.handoff_reason, "Escalation needed");
    assert_eq!(restored.priority, Priority::Critical);
}

#[test]
fn transfers_to_unknown_priority_is_normal() {
    let mut map = PropertyMap::new();
    map.insert("handoff_reason".to_string(), "r".to_string());
    map.insert("context_summary".to_string(), "s".to_string());
    map.insert("priority".to_string(), "whenever".to_string());
    assert_eq!(TransfersToProperties::from_properties(&map).unwrap().priority, Priority::Normal);
    let mut partial = PropertyMap::new();
    partial.insert("handoff_reason".to_string(), "r".to_string());
    assert_eq!(TransfersToProperties::from_properties(&partial).unwrap_err(), "Missing context_summary");
}

#[test]
fn test_transfers_to_edge_builder() {
    let response_id = NodeId::new();
    let agent_id = NodeId::new();

    let props = TransfersToProperties::new("Specialist required".to_string(), "Technical query".to_string(), Priority::Normal);
    let edge = Edge::transfers_to(response_id, agent_id, props);

    assert_eq!(edge.edge_type, EdgeType::TransfersTo);
    let extracted = edge.get_transfers_to_properties().unwrap();
    assert_eq!(extracted.handoff_reason, "Specialist required");
}

#[test]
fn test_context_type_display() {
    assert_eq!(ContextType::Document.to_string(), "document");
    assert_eq!(ContextType::WebPage.to_string(), "webpage");
    assert_eq!(ContextType::Database.to_string(), "database");
    assert_eq!(ContextType::VectorSearch.to_string(), "vector_search");
    assert_eq!(ContextType::Memory.to_string(), "memory");
}

#[test]
fn test_context_type_from_str() {
    assert_eq!("document".parse::<ContextType>().unwrap(), ContextType::Document);
    assert_eq!("webpage".parse::<ContextType>().unwrap(), ContextType::WebPage);
    assert_eq!("database".parse::<ContextType>().unwrap(), ContextType::Database);
    assert_eq!("vector_search".parse::<ContextType>().unwrap(), ContextType::VectorSearch);
    assert_eq!("memory".parse::<ContextType>().unwrap(), ContextType::Memory);
    assert_eq!("DOCUMENT".parse::<ContextType>().unwrap(), ContextType::Document);
    assert!("invalid".parse::<ContextType>().is_err());
}

#[test]
fn context_type_accepts_vectorsearch() {
    assert_eq!("VectorSearch".parse::<ContextType>().unwrap(), ContextType::VectorSearch);
    assert_eq!("nope".parse::<ContextType>().unwrap_err(), "Invalid context type: nope");
}

#[test]
fn test_property_extraction_wrong_type() {
    let from = NodeId::new();
    let to = NodeId::new();
    let edge = Edge::new(from, to, EdgeType::Follows);

    assert!(edge.get_instantiates_properties().is_none());
    assert!(edge.get_inherits_properties().is_none());
    assert!(edge.get_invokes_properties().is_none());
    assert!(edge.get_transfers_to_properties().is_none());
}

#[test]
fn test_all_edge_types_compile() {
    let from = NodeId::new();
    let to = NodeId::new();

    let _follows = Edge::new(from, to, EdgeType::Follows);
    let _responds_to = Edge::new(from, to, EdgeType::RespondsTo);
    let _handled_by = Edge::new(from, to, EdgeType::HandledBy);
    let _part_of = Edge::new(from, to, EdgeType::PartOf);
    let _invokes = Edge::new(from, to, EdgeType::Invokes);
    let _transfers_to = Edge::new(from, to, EdgeType::TransfersTo);
    let _instantiates = Edge::new(from, to, EdgeType::Instantiates);
    let _inherits = Edge::new(from, to, EdgeType::Inherits);
    let _references = Edge::new(from, to, EdgeType::References);
}

#[test]
fn property_map_keeps_one_value_per_key() {
    let mut m = PropertyMap::new();
    m.insert("k".to_string(), "1".to_string());
    m.insert("k".to_string(), "2".to_string());
    m.insert("j".to_string(), "3".to_string());
    assert_eq!(m.len(), 2);
    assert_eq!(m.get("k"), Some(&"2".to_string()));
    assert!(!m.contains_key("x"));
    let pairs = m.to_pairs();
    assert_eq!(pairs, vec![("k".to_string(), "2".to_string()), ("j".to_string(), "3".to_string())]);
    let back = PropertyMap::from_pairs(pairs);
    assert_eq!(back.get("j"), Some(&"3".to_string()));
}

#[test]
fn node_id_text_round_trip() {
    let id = NodeId::from_u128(0x0123_4567_89ab_cdef_0123_4567_89ab_cdef);
    let text = id.to_string();
    assert_eq!(text, "01234567-89ab-cdef-0123-456789abcdef");
    assert_eq!(NodeId::parse_str(&text), Some(id));
    assert_eq!(NodeId::parse_str("not a uuid"), None);
}

#[test]
fn fresh_identifiers_are_random_uuids() {
    let texts = vec![
        NodeId::new().to_string(),
        EdgeId::new().to_string(),
        SessionId::new().to_string(),
        AgentId::new().to_string(),
        TemplateId::new().to_string(),
    ];
    for t in &texts {
        assert_eq!(t.len(), 36);
        assert_eq!(&t[14..15], "4");
        assert!(matches!(&t[19..20], "8" | "9" | "a" | "b"));
    }
    assert_ne!(NodeId::new(), NodeId::new());
}

#[test]
fn instantiation_times_read_back_exactly() {
    for (seconds, nanos) in [(0i64, 1u32), (-62_167_219_200, 0), (253_402_300_799, 999_999_999), (1_431_648_000, 120_000_000)] {
        let mut props = InstantiatesProperties::new("1.0.0".to_string(), PropertyMap::new());
        props.instantiation_time = Timestamp { seconds, nanos };
        let restored = InstantiatesProperties::from_properties(&props.to_properties()).unwrap();
        assert_eq!(restored.instantiation_time, props.instantiation_time);
    }
}

#[test]
fn unsigned_numbers_parse_up_to_any_bound() {
    assert_eq!(parse_unsigned_u64("18446744073709551615", u64::MAX), Some(u64::MAX));
    assert_eq!(parse_unsigned_u64("18446744073709551616", u64::MAX), None);
    assert_eq!(parse_unsigned_u64("+42", 42), Some(42));
    assert_eq!(parse_unsigned_u64("43", 42), None);
    assert_eq!(parse_unsigned_u64("", 42), None);
    assert_eq!(parse_unsigned_u64("4x", 42), None);
    assert_eq!(parse_u32("4294967295"), Some(u32::MAX));
    assert_eq!(parse_u32("4294967296"), None);
}

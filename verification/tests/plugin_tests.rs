use llm_memory_graph::ids::Span;
use llm_memory_graph::plugin::hooks::{HookAction, HookExecutionResult, HookExecutor, HookOutcome, HookPoint, HookRegistry};
use llm_memory_graph::plugin::registry::{PluginCatalog, PluginDiscovery, PluginRegistry};
use llm_memory_graph::plugin::{PluginBuilder, PluginError, PluginMetadata};

#[derive(Clone, Debug)]
struct MockPlugin {
    metadata: PluginMetadata,
    should_fail: bool,
}

impl MockPlugin {
    fn new(name: &str, should_fail: bool) -> Self {
        let metadata = PluginBuilder::new(name, "1.0.0").author("Test").description("Test plugin").build();
        Self { metadata, should_fail }
    }
}

#[test]
fn test_hook_point_as_str() {
    assert_eq!(HookPoint::BeforeCreateNode.as_str(), "before_create_node");
    assert_eq!(HookPoint::AfterCreateNode.as_str(), "after_create_node");
}

#[test]
fn test_hook_point_is_before() {
    assert!(HookPoint::BeforeCreateNode.is_before());
    assert!(!HookPoint::AfterCreateNode.is_before());
}

#[test]
fn test_hook_registry() {
    let mut registry = HookRegistry::new();
    let plugin = MockPlugin::new("test", false);
    assert!(!plugin.should_fail);

    registry.register_hook(HookPoint::BeforeCreateNode, plugin.metadata.name.clone(), plugin.clone());
    assert_eq!(registry.count_plugins(HookPoint::BeforeCreateNode), 1);

    let plugins = registry.get_plugins(HookPoint::BeforeCreateNode);
    assert_eq!(plugins.len(), 1);

    registry.unregister_hook(HookPoint::BeforeCreateNode, "test");
    assert_eq!(registry.count_plugins(HookPoint::BeforeCreateNode), 0);
}

#[test]
fn hook_points_listed_in_order() {
    let all = HookPoint::all();
    assert_eq!(all.len(), 14);
    assert_eq!(all[0], HookPoint::BeforeCreateNode);
    assert_eq!(all[13], HookPoint::AfterDeleteSession);
    for (i, h) in all.iter().enumerate() {
        assert_eq!(h.is_before(), i % 2 == 0);
        assert_eq!(h.is_after(), i % 2 == 1);
        assert_eq!(h.index(), i);
    }
    assert_eq!(HookPoint::AfterDeleteSession.to_string(), "after_delete_session");
}

#[test]
fn unregister_plugin_everywhere_keeps_hook_entries() {
    let mut registry: HookRegistry<u32> = HookRegistry::new();
    registry.register_hook(HookPoint::BeforeQuery, "a".to_string(), 1);
    registry.register_hook(HookPoint::BeforeQuery, "b".to_string(), 2);
    registry.register_hook(HookPoint::AfterQuery, "a".to_string(), 3);
    assert_eq!(registry.get_plugins(HookPoint::BeforeQuery), vec![1, 2]);
    registry.unregister_plugin("a");
    assert_eq!(registry.get_plugins(HookPoint::BeforeQuery), vec![2]);
    assert_eq!(registry.count_plugins(HookPoint::AfterQuery), 0);
    let stats = registry.stats();
    assert_eq!(stats, vec![(HookPoint::BeforeQuery, 1), (HookPoint::AfterQuery, 0)]);
    registry.clear();
    assert!(registry.stats().is_empty());
    assert_eq!(registry.count_plugins(HookPoint::BeforeQuery), 0);
}

/// Runs the hooks of `hook` over the mock plugins the way a caller of the
/// library does, and returns the result with the names of the plugins
/// whose hook ran.
fn run_hooks(executor: &HookExecutor, hook: HookPoint, plugins: &[MockPlugin]) -> (Result<(), PluginError>, Vec<String>) {
    let names: Vec<String> = plugins.iter().map(|p| p.metadata.name.clone()).collect();
    let (mut run, mut action) = executor.begin(hook, hook.is_before(), names);
    let mut ran = Vec::new();
    loop {
        match action {
            HookAction::Invoke(i) => {
                ran.push(plugins[i].metadata.name.clone());
                let outcome = if plugins[i].should_fail {
                    HookOutcome::Failed(PluginError::HookFailed("Test failure".to_string()), "Hook failed: Test failure".to_string())
                } else {
                    HookOutcome::Passed
                };
                action = run.on_outcome(outcome);
            }
            HookAction::Finish(r) => return (r, ran),
        }
    }
}

#[test]
fn test_hook_executor_success() {
    let executor = HookExecutor::new();
    let plugins = vec![MockPlugin::new("plugin1", false), MockPlugin::new("plugin2", false)];
    let (result, ran) = run_hooks(&executor, HookPoint::BeforeCreateNode, &plugins);
    assert!(result.is_ok());
    assert_eq!(ran, vec!["plugin1".to_string(), "plugin2".to_string()]);
}

#[test]
fn test_hook_executor_fail_fast() {
    let executor = HookExecutor::new();
    let plugins = vec![
        MockPlugin::new("plugin1", false),
        MockPlugin::new("plugin2", true),
        MockPlugin::new("plugin3", false),
    ];
    let (result, ran) = run_hooks(&executor, HookPoint::BeforeCreateNode, &plugins);
    assert!(result.is_err());
    assert!(matches!(result, Err(PluginError::HookFailed(ref m)) if m == "Test failure"));
    assert_eq!(ran, vec!["plugin1".to_string(), "plugin2".to_string()]);
}

#[test]
fn test_hook_executor_without_fail_fast() {
    let executor = HookExecutor::without_fail_fast();
    let plugins = vec![
        MockPlugin::new("plugin1", false),
        MockPlugin::new("plugin2", true),
        MockPlugin::new("plugin3", false),
    ];
    let (result, ran) = run_hooks(&executor, HookPoint::BeforeCreateNode, &plugins);
    // Should fail but only after executing all plugins
    assert!(result.is_err());
    assert!(matches!(result, Err(PluginError::HookFailed(ref m)) if m == "Multiple plugins failed: plugin2: Hook failed: Test failure"));
    assert_eq!(ran.len(), 3);
}

#[test]
fn after_hooks_never_fail() {
    let executor = HookExecutor::new();
    let plugins = vec![MockPlugin::new("plugin1", true), MockPlugin::new("plugin2", true)];
    let (result, ran) = run_hooks(&executor, HookPoint::AfterCreateNode, &plugins);
    assert!(result.is_ok());
    assert_eq!(ran.len(), 2);
    let (empty, none_ran) = run_hooks(&executor, HookPoint::BeforeQuery, &[]);
    assert!(empty.is_ok());
    assert!(none_ran.is_empty());
}

#[test]
fn executor_failure_handling() {
    let fast = HookExecutor::new();
    let mut failures = Vec::new();
    assert!(fast.record_before_failure(&mut failures, "p".to_string(), "boom".to_string()));
    assert!(failures.is_empty());

    let slow = HookExecutor::without_fail_fast().with_metrics();
    assert!(slow.collect_metrics);
    assert!(!slow.record_before_failure(&mut failures, "plugin2".to_string(), "Hook failed: Test failure".to_string()));
    assert!(!slow.record_before_failure(&mut failures, "plugin4".to_string(), "x".to_string()));
    assert_eq!(
        HookExecutor::before_run_error(&failures),
        Some("Multiple plugins failed: plugin2: Hook failed: Test failure; plugin4: x".to_string())
    );
    assert_eq!(HookExecutor::before_run_error(&Vec::new()), None);
}

#[test]
fn execution_result_average() {
    let r = HookExecutionResult {
        hook: HookPoint::AfterQuery,
        plugins_executed: 3,
        total_duration: Span { secs: 1, nanos: 0 },
        plugin_durations: Vec::new(),
        errors: Vec::new(),
    };
    assert!(r.is_success());
    let avg = r.average_duration();
    let expected = std::time::Duration::from_secs(1) / 3;
    assert_eq!(avg, Span { secs: expected.as_secs(), nanos: expected.subsec_nanos() });
    let odd = HookExecutionResult { total_duration: Span { secs: 1, nanos: 2 }, ..r };
    let expected = std::time::Duration::new(1, 2) / 3;
    assert_eq!(expected.subsec_nanos(), 333_333_334);
    assert_eq!(odd.average_duration(), Span { secs: expected.as_secs(), nanos: expected.subsec_nanos() });
    let odd = HookExecutionResult { total_duration: Span { secs: 7, nanos: 999_999_999 }, plugins_executed: 4, ..odd };
    let expected = std::time::Duration::new(7, 999_999_999) / 4;
    assert_eq!(odd.average_duration(), Span { secs: expected.as_secs(), nanos: expected.subsec_nanos() });
    let none = HookExecutionResult { plugins_executed: 0, ..odd };
    assert_eq!(none.average_duration(), Span { secs: 0, nanos: 0 });
}

#[test]
fn test_plugin_registry() {
    let mut registry = PluginRegistry::new();
    let metadata = PluginBuilder::new("test_plugin", "1.0.0")
        .author("Test")
        .description("Test plugin")
        .capability("validation")
        .build();

    assert!(registry.register(metadata.clone(), None).is_ok());
    assert!(registry.contains("test_plugin"));
    assert_eq!(registry.list_all().len(), 1);
}

#[test]
fn test_plugin_registry_loaded_status() {
    let mut registry = PluginRegistry::new();
    let metadata = PluginBuilder::new("test_plugin", "1.0.0").author("Test").description("Test plugin").build();

    registry.register(metadata, None).unwrap();
    assert_eq!(registry.list_loaded().len(), 0);
    assert_eq!(registry.list_unloaded().len(), 1);

    registry.mark_loaded("test_plugin").unwrap();
    assert_eq!(registry.list_loaded().len(), 1);
    assert_eq!(registry.list_unloaded().len(), 0);
}

#[test]
fn test_plugin_registry_capabilities() {
    let mut registry = PluginRegistry::new();
    let metadata1 = PluginBuilder::new("plugin1", "1.0.0").capability("validation").build();
    let metadata2 = PluginBuilder::new("plugin2", "1.0.0").capability("validation").capability("enrichment").build();

    registry.register(metadata1, None).unwrap();
    registry.register(metadata2, None).unwrap();

    let validation_plugins = registry.find_by_capability("validation");
    assert_eq!(validation_plugins.len(), 2);

    let enrichment_plugins = registry.find_by_capability("enrichment");
    assert_eq!(enrichment_plugins.len(), 1);
}

#[test]
fn test_plugin_catalog() {
    let mut registry = PluginRegistry::new();
    let metadata1 = PluginBuilder::new("plugin1", "1.0.0").capability("validation").build();
    let metadata2 = PluginBuilder::new("plugin2", "1.0.0").capability("enrichment").build();

    registry.register(metadata1, None).unwrap();
    registry.register(metadata2, None).unwrap();
    registry.mark_loaded("plugin1").unwrap();

    let catalog = PluginCatalog::from_registry(&registry);
    assert_eq!(catalog.count(), 2);

    let loaded_catalog = catalog.loaded(true);
    assert_eq!(loaded_catalog.count(), 1);
}

#[test]
fn registry_refusals_and_tags() {
    let mut registry = PluginRegistry::new();
    registry.register(PluginBuilder::new("p", "1").build(), Some("/x".to_string())).unwrap();
    match registry.register(PluginBuilder::new("p", "2").build(), None) {
        Err(PluginError::AlreadyRegistered(n)) => assert_eq!(n, "p"),
        other => panic!("unexpected {:?}", other),
    }
    assert!(matches!(registry.mark_loaded("q"), Err(PluginError::NotFound(_))));
    registry.add_tag("p", "a".to_string()).unwrap();
    registry.add_tag("p", "a".to_string()).unwrap();
    registry.add_tag("p", "b".to_string()).unwrap();
    assert_eq!(registry.get("p").unwrap().tags, vec!["a".to_string(), "b".to_string()]);
    assert_eq!(registry.find_by_tag("b").len(), 1);
    registry.remove_tag("p", "a").unwrap();
    assert_eq!(registry.get("p").unwrap().tags, vec!["b".to_string()]);
    assert_eq!(registry.get("p").unwrap().source, Some("/x".to_string()));
    registry.unregister("p").unwrap();
    assert!(!registry.contains("p"));
    assert!(matches!(registry.unregister("p"), Err(PluginError::NotFound(_))));
    registry.add_search_path("/plugins".to_string());
    registry.add_search_path("/plugins".to_string());
    registry.clear();
    assert_eq!(registry.len(), 0);
}

#[test]
fn discovery_finds_nothing_yet() {
    let mut d = PluginDiscovery::new();
    d.add_path("/tmp".to_string());
    assert!(d.discover().is_empty());
    match d.load_metadata_from_file("/tmp/plugin.json") {
        Err(PluginError::General(m)) => assert_eq!(m, "Metadata file loading not yet implemented"),
        other => panic!("unexpected {:?}", other),
    }
}

#[test]
fn metadata_file_names() {
    assert!(PluginDiscovery::is_metadata_file("plugin.json"));
    assert!(PluginDiscovery::is_metadata_file("plugin.toml"));
    assert!(!PluginDiscovery::is_metadata_file("plugin.yaml"));
    assert!(!PluginDiscovery::is_metadata_file("Plugin.json"));
    assert!(!PluginDiscovery::is_metadata_file(""));
}

#[test]
fn catalog_orders_by_name_and_time() {
    let mut registry = PluginRegistry::new();
    for name in ["zeta", "alpha", "Beta", "alp"] {
        registry.register(PluginBuilder::new(name, "1").capability("c").build(), None).unwrap();
    }
    let by_name = PluginCatalog::from_registry(&registry).sort_by_name();
    let names: Vec<String> = by_name.entries().iter().map(|e| e.metadata.name.clone()).collect();
    assert_eq!(names, vec!["Beta", "alp", "alpha", "zeta"]);
    let by_time = PluginCatalog::from_registry(&registry).sort_by_time();
    let times: Vec<_> = by_time.entries().iter().map(|e| e.registered_at).collect();
    for w in times.windows(2) {
        assert!(w[0].le(&w[1]));
    }
    assert_eq!(PluginCatalog::from_registry(&registry).with_capability("c").count(), 4);
    assert_eq!(PluginCatalog::from_registry(&registry).with_tag("t").count(), 0);
}

#[test]
fn registry_stats_count_capabilities() {
    let mut registry = PluginRegistry::new();
    registry.register(PluginBuilder::new("plugin1", "1.0.0").capability("validation").build(), None).unwrap();
    registry
        .register(PluginBuilder::new("plugin2", "1.0.0").capability("validation").capability("enrichment").build(), None)
        .unwrap();
    registry.mark_loaded("plugin2").unwrap();
    let stats = registry.stats();
    assert_eq!(stats.total_plugins, 2);
    assert_eq!(stats.loaded_plugins, 1);
    assert_eq!(stats.unloaded_plugins, 1);
    assert_eq!(stats.capabilities, vec![("validation".to_string(), 2), ("enrichment".to_string(), 1)]);
}

#[test]
fn register_loaded_plugin_once() {
    let mut registry = PluginRegistry::new();
    let metadata = PluginBuilder::new("loaded", "1.0.0").build();
    registry.register_plugin(metadata).unwrap();
    assert_eq!(registry.list_loaded().len(), 1);
    let again = PluginBuilder::new("loaded", "2.0.0").build();
    match registry.register_plugin(again) {
        Err(PluginError::AlreadyRegistered(name)) => assert_eq!(name, "loaded"),
        _ => panic!("a name is registered once"),
    }
    assert_eq!(registry.len(), 1);
}

#[test]
fn hook_names_carry_their_kind_and_differ() {
    let all = HookPoint::all();
    assert_eq!(all.len(), 14);
    for h in &all {
        assert_eq!(h.as_str().starts_with("before_"), h.is_before());
        assert_eq!(h.as_str().starts_with("after_"), h.is_after());
    }
    for (i, a) in all.iter().enumerate() {
        for b in &all[i + 1..] {
            assert_ne!(a.as_str(), b.as_str());
        }
    }
}

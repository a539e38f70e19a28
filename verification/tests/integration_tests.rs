use llm_memory_graph::clients::registry::RegistryEndpoint as ClientRegistryEndpoint;
use llm_memory_graph::clients::vault::VaultEndpoint as ClientVaultEndpoint;
use llm_memory_graph::integrations::registry::RegistryEndpoint;
use llm_memory_graph::integrations::vault::VaultEndpoint;
use llm_memory_graph::clients::registry::RegistryConfig as ClientRegistryConfig;
use llm_memory_graph::clients::vault::VaultConfig as ClientVaultConfig;
use llm_memory_graph::clients::{check_response, ClientError};
use llm_memory_graph::ids::Span;
use llm_memory_graph::integrations::registry::{RegistryConfig, SessionRegistration, SessionStatus, UsageReport};
use llm_memory_graph::integrations::retention::{compliance_policy, hipaa_policy, ArchivalStats, SchedulerConfig};
use llm_memory_graph::integrations::vault::{
    check_status, ArchiveEntry, ArchiveFailure, BatchArchiveResponse, ComplianceLevel, RetentionPolicy, VaultConfig,
};
use llm_memory_graph::integrations::{CircuitBreaker, IntegrationError, RetryPolicy};
use llm_memory_graph::integrations::registry::{check_lookup, page_query};
use llm_memory_graph::integrations::retention::{ArchivalScheduler, SchedulerAction};
use std::time::Duration;

fn span(d: Duration) -> Span {
    Span { secs: d.as_secs(), nanos: d.subsec_nanos() }
}

#[test]
fn test_circuit_breaker_creation() {
    let cb = CircuitBreaker::new(5, 2, span(Duration::from_secs(60)));
    assert_eq!(cb.failure_threshold, 5);
    assert_eq!(cb.success_threshold, 2);
    assert_eq!(cb.timeout_duration, span(Duration::from_secs(60)));
}

#[test]
fn circuit_breaker_default() {
    assert_eq!(CircuitBreaker::default_config(), CircuitBreaker::new(5, 2, span(Duration::from_secs(60))));
}

#[test]
fn test_retry_policy_builder() {
    let policy = RetryPolicy::new()
        .with_max_attempts(5)
        .with_initial_delay(span(Duration::from_millis(200)))
        .with_backoff_multiplier_bits(3.0f64.to_bits());

    assert_eq!(policy.max_attempts, 5);
    assert_eq!(policy.initial_delay, span(Duration::from_millis(200)));
    assert_eq!(f64::from_bits(policy.backoff_multiplier_bits), 3.0);
}

#[test]
fn retry_decisions() {
    let p = RetryPolicy::new();
    assert_eq!(f64::from_bits(p.backoff_multiplier_bits), 2.0);
    assert_eq!(p.initial_delay, span(Duration::from_millis(100)));
    assert!(p.should_retry(1, &IntegrationError::Timeout(10)));
    assert!(!p.should_retry(3, &IntegrationError::Timeout(10)));
    assert!(p.should_retry(1, &IntegrationError::ApiError { status: 503, message: String::new() }));
    assert!(!p.should_retry(1, &IntegrationError::ApiError { status: 404, message: String::new() }));
    assert!(!p.should_retry(1, &IntegrationError::InvalidConfig("x".to_string())));
}

#[test]
fn test_integration_error_from_reqwest() {
    let err = IntegrationError::Timeout(5000);
    assert!(matches!(err, IntegrationError::Timeout(_)));
}

#[test]
fn integration_error_messages() {
    assert_eq!(IntegrationError::Timeout(5000).to_string(), "Request timeout after 5000ms");
    assert_eq!(IntegrationError::ApiError { status: 500, message: "boom".to_string() }.to_string(), "API error: 500 - boom");
    assert!(matches!(IntegrationError::from_transport_failure(true, true, "x".to_string()), IntegrationError::Timeout(30000)));
    assert!(matches!(IntegrationError::from_transport_failure(false, true, "x".to_string()), IntegrationError::ConnectionError(_)));
}

#[test]
fn test_registry_config_builder() {
    let config = RegistryConfig::new("http://registry.example.com", None)
        .with_api_key("test-key".to_string())
        .with_timeout(60)
        .with_retry_count(5)
        .with_logging(false);

    assert_eq!(config.base_url, "http://registry.example.com");
    assert_eq!(config.api_key, Some("test-key".to_string()));
    assert_eq!(config.timeout_secs, 60);
    assert_eq!(config.retry_count, 5);
    assert!(!config.enable_logging);
}

#[test]
fn registry_config_from_env() {
    let config = RegistryConfig::from_env(None, None);
    assert_eq!(config.base_url, "http://localhost:8080");
    assert_eq!(config.timeout_secs, 30);
}

#[test]
fn test_session_registration_builder() {
    let registration = SessionRegistration::new("session-123".to_string(), "gpt-4".to_string())
        .with_tag("production".to_string())
        .with_tag("high-priority".to_string())
        .with_metadata("user_id".to_string(), "\"user-456\"".to_string());

    assert_eq!(registration.session_id, "session-123");
    assert_eq!(registration.model_id, "gpt-4");
    assert_eq!(registration.tags.len(), 2);
    assert!(registration.metadata.contains_key("user_id"));
}

#[test]
fn test_usage_report_builder() {
    let report = UsageReport::new("session-123".to_string(), 100, 200)
        .with_model_id("gpt-4".to_string())
        .with_latency_ms(1500)
        .with_metadata("endpoint".to_string(), "\"/v1/chat/completions\"".to_string());

    assert_eq!(report.session_id, "session-123");
    assert_eq!(report.model_id, "gpt-4");
    assert_eq!(report.prompt_tokens, 100);
    assert_eq!(report.completion_tokens, 200);
    assert_eq!(report.total_tokens, 300);
    assert_eq!(report.latency_ms, Some(1500));
    assert!(report.metadata.contains_key("endpoint"));
}

#[test]
fn test_session_status_serialization() {
    let status = SessionStatus::Active;
    let json = format!("\"{}\"", status.as_str());
    assert_eq!(json, "\"active\"");

    let status = SessionStatus::from_name("completed").unwrap();
    assert_eq!(status, SessionStatus::Completed);
}

#[test]
fn test_vault_config_builder() {
    let config = VaultConfig::new("http://localhost:9000", "test-key")
        .with_encryption(false)
        .with_compression(true)
        .with_timeout(120)
        .with_batch_size(50);

    assert_eq!(config.base_url, "http://localhost:9000");
    assert_eq!(config.api_key, "test-key");
    assert!(!config.encryption_enabled);
    assert!(config.compression_enabled);
    assert_eq!(config.timeout_secs, 120);
    assert_eq!(config.batch_size, 50);
}

#[test]
fn test_archive_entry_builder() {
    let data = "{\"key\":\"value\"}".to_string();
    let entry = ArchiveEntry::new("session-123".to_string(), data, 365)
        .with_tag("production".to_string())
        .with_metadata("user_id".to_string(), "\"user-456\"".to_string());

    assert_eq!(entry.session_id, "session-123");
    assert_eq!(entry.retention_days, 365);
    assert_eq!(entry.tags.len(), 1);
    assert!(entry.metadata.contains_key("user_id"));
    assert_eq!(entry.id.len(), 36);
}

#[test]
fn test_retention_policy_builder() {
    let policy = RetentionPolicy::new("HIPAA Compliance".to_string(), 2555, ComplianceLevel::Hipaa)
        .with_auto_delete(true)
        .with_description("7-year retention for HIPAA compliance".to_string())
        .with_tag("healthcare".to_string());

    assert_eq!(policy.name, "HIPAA Compliance");
    assert_eq!(policy.retention_days, 2555);
    assert_eq!(policy.compliance_level, ComplianceLevel::Hipaa);
    assert!(policy.auto_delete);
    assert_eq!(policy.tags.len(), 1);
}

#[test]
fn test_compliance_level_serialization() {
    let level = ComplianceLevel::Gdpr;
    let json = format!("\"{}\"", level.as_str());
    assert_eq!(json, "\"gdpr\"");

    let level = ComplianceLevel::from_name("hipaa").unwrap();
    assert_eq!(level, ComplianceLevel::Hipaa);
}

#[test]
fn vault_status_check() {
    assert!(check_status(204, String::new()).is_ok());
    match check_status(500, "down".to_string()) {
        Err(IntegrationError::ApiError { status, message }) => {
            assert_eq!(status, 500);
            assert_eq!(message, "down");
        }
        other => panic!("unexpected {:?}", other),
    }
}

#[test]
fn test_scheduler_config_builder() {
    let config = SchedulerConfig::new()
        .with_interval_hours(12)
        .with_archive_after_days(60)
        .with_retention_days(730)
        .with_batch_size(50)
        .with_compliance_level(ComplianceLevel::Hipaa)
        .with_enabled(false);

    assert_eq!(config.interval_hours, 12);
    assert_eq!(config.archive_after_days, 60);
    assert_eq!(config.retention_days, 730);
    assert_eq!(config.batch_size, 50);
    assert_eq!(config.default_compliance_level, ComplianceLevel::Hipaa);
    assert!(!config.enabled);
}

#[test]
fn compliance_policies() {
    let p = compliance_policy("p".to_string(), ComplianceLevel::Pci);
    assert_eq!(p.retention_days, 1095);
    assert_eq!(p.tags, vec!["pci".to_string()]);
    let h = hipaa_policy("h".to_string());
    assert_eq!(h.retention_days, 2555);
    assert_eq!(h.tags, vec!["healthcare".to_string(), "compliance".to_string()]);
}

#[test]
fn batch_stats_from_response() {
    let response = BatchArchiveResponse {
        archived: vec!["a".to_string()],
        failed: vec![ArchiveFailure { session_id: "b".to_string(), error: "e".to_string() }],
        total: 2,
        success_count: 1,
    };
    let stats = ArchivalStats::from_batch(2, &response);
    assert_eq!(stats.total_processed, 2);
    assert_eq!(stats.archived_count, 1);
    assert_eq!(stats.failed_count, 1);
    assert_eq!(ArchivalStats::new().total_processed, 0);
}

#[test]
fn test_registry_config() {
    let config = ClientRegistryConfig::new("https://registry.example.com", "test-key")
        .with_timeout(60)
        .with_max_retries(5);

    assert_eq!(config.base_url, "https://registry.example.com");
    assert_eq!(config.api_key, "test-key");
    assert_eq!(config.timeout_secs, 60);
    assert_eq!(config.max_retries, 5);
}

#[test]
fn test_vault_config() {
    let config = ClientVaultConfig::new("https://vault.example.com", "test-key")
        .with_timeout(60)
        .with_max_retries(5)
        .with_compression(false);

    assert_eq!(config.base_url, "https://vault.example.com");
    assert_eq!(config.api_key, "test-key");
    assert_eq!(config.timeout_secs, 60);
    assert_eq!(config.max_retries, 5);
    assert!(!config.enable_compression);
}

#[test]
fn client_responses_checked() {
    assert!(check_response(201, "201 Created", "").is_ok());
    assert!(matches!(check_response(403, "403 Forbidden", "no"), Err(ClientError::AuthenticationError(_))));
    assert!(matches!(check_response(429, "429 Too Many Requests", "slow"), Err(ClientError::RateLimitExceeded(_))));
    match check_response(500, "500 Internal Server Error", "oops") {
        Err(ClientError::InvalidResponse(m)) => assert_eq!(m, "HTTP 500 Internal Server Error: oops"),
        other => panic!("unexpected {:?}", other),
    }
    let c = ClientRegistryConfig::new("https://r", "k");
    assert_eq!(c.url("/api/v1/models"), "https://r/api/v1/models");
}

#[test]
fn scheduler_start_stop_and_ticks() {
    let mut disabled = ArchivalScheduler::new(SchedulerConfig::new().with_enabled(false));
    assert_eq!(disabled.start(), None);
    assert!(!disabled.running);
    assert_eq!(disabled.on_tick(), SchedulerAction::Stop);

    let mut scheduler = ArchivalScheduler::new(SchedulerConfig::new().with_interval_hours(2));
    assert!(!scheduler.is_running());
    assert_eq!(scheduler.start(), Some(7200));
    assert!(scheduler.is_running());
    assert_eq!(scheduler.on_tick(), SchedulerAction::RunIteration);
    scheduler.stop();
    assert!(!scheduler.is_running());
    assert_eq!(scheduler.on_tick(), SchedulerAction::Stop);
}

#[test]
fn scheduler_builds_archive_entries() {
    let scheduler = ArchivalScheduler::new(SchedulerConfig::new().with_retention_days(90));
    let entry = scheduler.manual_archive_entry("session-1".to_string(), "{\"a\":1}".to_string());
    assert_eq!(entry.session_id, "session-1");
    assert_eq!(entry.retention_days, 90);
    assert_eq!(entry.tags, vec!["manual".to_string()]);
    assert_eq!(entry.metadata.get("archived_by"), Some(&"\"archival_scheduler\"".to_string()));

    let entries = scheduler.batch_archive_entries(vec![
        ("s1".to_string(), "{}".to_string()),
        ("s2".to_string(), "[]".to_string()),
    ]);
    assert_eq!(entries.len(), 2);
    assert_eq!(entries[0].session_id, "s1");
    assert_eq!(entries[1].session_id, "s2");
    assert_eq!(entries[1].data, "[]");
    assert!(entries.iter().all(|e| e.tags == vec!["batch".to_string()] && e.retention_days == 90));
    assert_ne!(entries[0].id, entries[1].id);
}

#[test]
fn listing_page_queries() {
    assert_eq!(page_query(Some(2), Some(50)), "?page=2&page_size=50");
    assert_eq!(page_query(Some(3), None), "?page=3");
    assert_eq!(page_query(None, Some(10)), "?page_size=10");
    assert_eq!(page_query(None, None), "");
}

#[test]
fn lookup_statuses() {
    assert!(check_lookup(200, "Session", "abc", String::new()).is_ok());
    match check_lookup(404, "Session", "abc", "gone".to_string()) {
        Err(IntegrationError::ApiError { status, message }) => {
            assert_eq!(status, 404);
            assert_eq!(message, "Session not found: abc");
        }
        _ => panic!("expected an API error"),
    }
    match check_lookup(500, "Model", "m1", "boom".to_string()) {
        Err(IntegrationError::ApiError { status, message }) => {
            assert_eq!(status, 500);
            assert_eq!(message, "boom");
        }
        _ => panic!("expected an API error"),
    }
}

#[test]
fn vault_transfer_headers() {
    let config = VaultConfig::new("http://vault", "key").with_compression(false);
    let headers = config.transfer_headers();
    assert_eq!(headers[0], ("X-Encryption-Enabled".to_string(), "true".to_string()));
    assert_eq!(headers[1], ("X-Compression-Enabled".to_string(), "false".to_string()));
}

#[test]
fn endpoint_addresses() {
    let vault = VaultConfig::new("http://localhost:9000", "key");
    assert_eq!(vault.endpoint_url(&VaultEndpoint::Archive), "http://localhost:9000/api/v1/archive");
    assert_eq!(vault.endpoint_url(&VaultEndpoint::ArchiveBatch), "http://localhost:9000/api/v1/archive/batch");
    assert_eq!(vault.endpoint_url(&VaultEndpoint::ArchiveEntry("a1".to_string())), "http://localhost:9000/api/v1/archive/a1");
    assert_eq!(vault.endpoint_url(&VaultEndpoint::ArchivePolicy("a1".to_string())), "http://localhost:9000/api/v1/archive/a1/policy");
    assert_eq!(vault.endpoint_url(&VaultEndpoint::Policies), "http://localhost:9000/api/v1/policies");
    assert_eq!(vault.endpoint_url(&VaultEndpoint::Health), "http://localhost:9000/health");

    let registry = RegistryConfig::new("http://registry", None);
    assert_eq!(registry.endpoint_url(&RegistryEndpoint::Sessions), "http://registry/api/v1/sessions");
    assert_eq!(registry.endpoint_url(&RegistryEndpoint::Session("s".to_string())), "http://registry/api/v1/sessions/s");
    assert_eq!(registry.endpoint_url(&RegistryEndpoint::SessionStatus("s".to_string())), "http://registry/api/v1/sessions/s/status");
    assert_eq!(registry.endpoint_url(&RegistryEndpoint::SessionUsage("s".to_string())), "http://registry/api/v1/sessions/s/usage");
    assert_eq!(registry.endpoint_url(&RegistryEndpoint::Models), "http://registry/api/v1/models");
    assert_eq!(registry.endpoint_url(&RegistryEndpoint::Model("m".to_string())), "http://registry/api/v1/models/m");
    assert_eq!(registry.endpoint_url(&RegistryEndpoint::ModelUsage("m".to_string())), "http://registry/api/v1/models/m/usage");
    assert_eq!(registry.endpoint_url(&RegistryEndpoint::Usage), "http://registry/api/v1/usage");
    assert_eq!(registry.endpoint_url(&RegistryEndpoint::Health), "http://registry/health");

    let cvault = ClientVaultConfig::new("https://vault", "key");
    assert_eq!(cvault.endpoint_url(&ClientVaultEndpoint::SessionArchive("s".to_string())), "https://vault/api/v1/sessions/s/archive");
    assert_eq!(cvault.endpoint_url(&ClientVaultEndpoint::SessionData("s".to_string())), "https://vault/api/v1/sessions/s/data");
    assert_eq!(cvault.endpoint_url(&ClientVaultEndpoint::Session("s".to_string())), "https://vault/api/v1/sessions/s");
    assert_eq!(cvault.endpoint_url(&ClientVaultEndpoint::Sessions), "https://vault/api/v1/sessions");
    assert_eq!(cvault.endpoint_url(&ClientVaultEndpoint::Stats), "https://vault/api/v1/stats");

    let cregistry = ClientRegistryConfig::new("https://registry", "key");
    assert_eq!(cregistry.endpoint_url(&ClientRegistryEndpoint::Models), "https://registry/api/v1/models");
    assert_eq!(
        cregistry.endpoint_url(&ClientRegistryEndpoint::ModelVersion("gpt".to_string(), "4".to_string())),
        "https://registry/api/v1/models/gpt/4"
    );
    assert_eq!(cregistry.endpoint_url(&ClientRegistryEndpoint::Stats), "https://registry/api/v1/stats");
}

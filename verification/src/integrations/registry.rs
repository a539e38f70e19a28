//! Settings and records exchanged with the model registry.

use vstd::prelude::*;
use crate::ids::Timestamp;
use crate::integrations::IntegrationError;
use crate::integrations::vault::is_success;
use crate::props::PropertyMap;
use crate::text::{decimal, u64_to_string};

verus! {

/// Settings of the registry client.
#[derive(Debug)]
pub struct RegistryConfig {
    /// Base URL of the registry service
    pub base_url: String,
    /// API key for authentication
    pub api_key: Option<String>,
    /// Request timeout in seconds
    pub timeout_secs: u64,
    /// Maximum number of retry attempts
    pub retry_count: usize,
    /// Whether requests and responses are logged
    pub enable_logging: bool,
}

/// The registry's address when none is configured.
pub open spec fn default_registry_url() -> Seq<char> {
    "http://localhost:8080"@
}

impl RegistryConfig {
    /// Settings for the registry at `base_url`, with the API key found in
    /// the environment (if any), a 30 s timeout, three retries and logging.
    pub fn new(base_url: &str, env_api_key: Option<String>) -> (c: Self)
        ensures
            c.base_url@ == base_url@,
            c.api_key == env_api_key,
            c.timeout_secs == 30,
            c.retry_count == 3,
            c.enable_logging,
    {
        RegistryConfig {
            base_url: String::from_str(base_url),
            api_key: env_api_key,
            timeout_secs: 30,
            retry_count: 3,
            enable_logging: true,
        }
    }

    /// Settings from the environment: the URL and API key found there,
    /// with the registry on the local host when no URL is given.
    pub fn from_env(env_url: Option<String>, env_api_key: Option<String>) -> (c: Self)
        ensures
            env_url matches Some(u) ==> c.base_url == u,
            env_url is None ==> c.base_url@ == default_registry_url(),
            c.api_key == env_api_key,
            c.timeout_secs == 30,
            c.retry_count == 3,
            c.enable_logging,
    {
        let base_url = match env_url {
            Some(u) => u,
            None => String::from_str("http://localhost:8080"),
        };
        RegistryConfig { base_url, api_key: env_api_key, timeout_secs: 30, retry_count: 3, enable_logging: true }
    }

    /// Set the API key.
    pub fn with_api_key(self, api_key: String) -> (c: Self)
        ensures
            c.base_url == self.base_url,
            c.api_key == Some(api_key),
            c.timeout_secs == self.timeout_secs,
            c.retry_count == self.retry_count,
            c.enable_logging == self.enable_logging,
    {
        RegistryConfig { api_key: Some(api_key), ..self }
    }

    /// Set the timeout in seconds.
    pub fn with_timeout(self, timeout_secs: u64) -> (c: Self)
        ensures
            c == (RegistryConfig { timeout_secs, ..self }),
    {
        RegistryConfig { timeout_secs, ..self }
    }

    /// Set the number of retries.
    pub fn with_retry_count(self, retry_count: usize) -> (c: Self)
        ensures
            c == (RegistryConfig { retry_count, ..self }),
    {
        RegistryConfig { retry_count, ..self }
    }

    /// Enable or disable logging.
    pub fn with_logging(self, enable: bool) -> (c: Self)
        ensures
            c == (RegistryConfig { enable_logging: enable, ..self }),
    {
        RegistryConfig { enable_logging: enable, ..self }
    }
}

/// Status of a session known to the registry.
#[derive(Debug, Clone, Copy, PartialEq, Eq, Structural)]
pub enum SessionStatus {
    /// Session is active
    Active,
    /// Session has ended normally
    Completed,
    /// Session was terminated with an error
    Failed,
    /// Session was archived
    Archived,
}

/// The wire name of a session status.
pub open spec fn session_status_text(s: SessionStatus) -> Seq<char> {
    match s {
        SessionStatus::Active => "active"@,
        SessionStatus::Completed => "completed"@,
        SessionStatus::Failed => "failed"@,
        SessionStatus::Archived => "archived"@,
    }
}

/// The session status with a wire name.
pub open spec fn session_status_named(s: Seq<char>) -> Option<SessionStatus> {
    if s == "active"@ { Some(SessionStatus::Active) }
    else if s == "completed"@ { Some(SessionStatus::Completed) }
    else if s == "failed"@ { Some(SessionStatus::Failed) }
    else if s == "archived"@ { Some(SessionStatus::Archived) }
    else { None }
}

impl SessionStatus {
    /// The status's wire name.
    pub fn as_str(&self) -> (s: &'static str)
        ensures
            s@ == session_status_text(*self),
    {
        match self {
            SessionStatus::Active => "active",
            SessionStatus::Completed => "completed",
            SessionStatus::Failed => "failed",
            SessionStatus::Archived => "archived",
        }
    }

    /// The status with a wire name.
    pub fn from_name(s: &str) -> (r: Option<SessionStatus>)
        ensures
            r == session_status_named(s@),
    {
        if crate::text::str_eq(s, "active") { Some(SessionStatus::Active) }
        else if crate::text::str_eq(s, "completed") { Some(SessionStatus::Completed) }
        else if crate::text::str_eq(s, "failed") { Some(SessionStatus::Failed) }
        else if crate::text::str_eq(s, "archived") { Some(SessionStatus::Archived) }
        else { None }
    }
}

/// Every status's wire name reads back as that status.
pub proof fn lemma_session_status_round_trip(s: SessionStatus)
    ensures
        session_status_named(session_status_text(s)) == Some(s),
{
    reveal_strlit("active");
    reveal_strlit("completed");
    reveal_strlit("failed");
    reveal_strlit("archived");
    assert("active"@.len() == 6 && "completed"@.len() == 9 && "failed"@.len() == 6 && "archived"@.len() == 8);
    assert("active"@[0] != "failed"@[0]);
}

/// A session announced to the registry.
#[derive(Debug)]
pub struct SessionRegistration {
    /// Session identifier in the memory graph
    pub session_id: String,
    /// Model used in the session
    pub model_id: String,
    /// Model version
    pub model_version: String,
    /// When the session started
    pub started_at: Timestamp,
    /// Metadata, each value as JSON text
    pub metadata: PropertyMap,
    /// Tags
    pub tags: Vec<String>,
}

impl SessionRegistration {
    /// A registration of a session using a model, started now.
    pub fn new(session_id: String, model_id: String) -> (r: Self)
        ensures
            r.session_id == session_id,
            r.model_id == model_id,
            r.model_version@ == Seq::<char>::empty(),
            r.metadata@ == Map::<Seq<char>, Seq<char>>::empty(),
            r.tags@.len() == 0,
    {
        SessionRegistration {
            session_id,
            model_id,
            model_version: String::new(),
            started_at: Timestamp::now(),
            metadata: PropertyMap::new(),
            tags: Vec::new(),
        }
    }

    /// Add a metadata entry (the value as JSON text).
    pub fn with_metadata(self, key: String, value: String) -> (r: Self)
        ensures
            r.metadata@ == self.metadata@.insert(key@, value@),
            r.session_id == self.session_id,
            r.model_id == self.model_id,
            r.tags == self.tags,
    {
        let mut r = self;
        r.metadata.insert(key, value);
        r
    }

    /// Add a tag.
    pub fn with_tag(self, tag: String) -> (r: Self)
        ensures
            r.tags@ == self.tags@.push(tag),
            r.session_id == self.session_id,
            r.model_id == self.model_id,
            r.metadata@ == self.metadata@,
    {
        let mut r = self;
        r.tags.push(tag);
        r
    }
}

/// A report of the tokens a session used.
#[derive(Debug)]
pub struct UsageReport {
    /// Session identifier
    pub session_id: String,
    /// Model identifier
    pub model_id: String,
    /// Prompt tokens
    pub prompt_tokens: i64,
    /// Completion tokens
    pub completion_tokens: i64,
    /// Tokens in all
    pub total_tokens: i64,
    /// Response latency in milliseconds
    pub latency_ms: Option<i64>,
    /// When the usage happened
    pub timestamp: Timestamp,
    /// Further context, each value as JSON text
    pub metadata: PropertyMap,
}

impl UsageReport {
    /// A report of prompt and completion tokens, made now; the total is
    /// their sum.
    pub fn new(session_id: String, prompt_tokens: i64, completion_tokens: i64) -> (r: Self)
        requires
            i64::MIN <= prompt_tokens + completion_tokens <= i64::MAX,
        ensures
            r.session_id == session_id,
            r.model_id@ == Seq::<char>::empty(),
            r.prompt_tokens == prompt_tokens,
            r.completion_tokens == completion_tokens,
            r.total_tokens == prompt_tokens + completion_tokens,
            r.latency_ms is None,
            r.metadata@ == Map::<Seq<char>, Seq<char>>::empty(),
    {
        UsageReport {
            session_id,
            model_id: String::new(),
            prompt_tokens,
            completion_tokens,
            total_tokens: prompt_tokens + completion_tokens,
            latency_ms: None,
            timestamp: Timestamp::now(),
            metadata: PropertyMap::new(),
        }
    }

    /// Set the model.
    pub fn with_model_id(self, model_id: String) -> (r: Self)
        ensures
            r.model_id == model_id,
            r.session_id == self.session_id,
            r.prompt_tokens == self.prompt_tokens,
            r.completion_tokens == self.completion_tokens,
            r.total_tokens == self.total_tokens,
            r.latency_ms == self.latency_ms,
            r.metadata@ == self.metadata@,
    {
        UsageReport { model_id, ..self }
    }

    /// Set the latency.
    pub fn with_latency_ms(self, latency_ms: i64) -> (r: Self)
        ensures
            r.latency_ms == Some(latency_ms),
            r.session_id == self.session_id,
            r.model_id == self.model_id,
            r.prompt_tokens == self.prompt_tokens,
            r.completion_tokens == self.completion_tokens,
            r.total_tokens == self.total_tokens,
            r.metadata@ == self.metadata@,
    {
        UsageReport { latency_ms: Some(latency_ms), ..self }
    }

    /// Add a metadata entry (the value as JSON text).
    pub fn with_metadata(self, key: String, value: String) -> (r: Self)
        ensures
            r.metadata@ == self.metadata@.insert(key@, value@),
            r.session_id == self.session_id,
            r.model_id == self.model_id,
            r.total_tokens == self.total_tokens,
    {
        let mut r = self;
        r.metadata.insert(key, value);
        r
    }
}

/// The query string of a listing request: `?page=P&page_size=S`, with
/// either part left out when it is not given, and nothing without both.
pub open spec fn page_query_text(page: Option<usize>, page_size: Option<usize>) -> Seq<char> {
    match (page, page_size) {
        (Some(p), Some(z)) => "?page="@ + decimal(p as nat) + "&page_size="@ + decimal(z as nat),
        (Some(p), None) => "?page="@ + decimal(p as nat),
        (None, Some(z)) => "?page_size="@ + decimal(z as nat),
        (None, None) => Seq::empty(),
    }
}

/// The query string that selects a page of a listing.
pub fn page_query(page: Option<usize>, page_size: Option<usize>) -> (q: String)
    ensures
        q@ == page_query_text(page, page_size),
{
    let mut q = String::new();
    match page {
        Some(p) => {
            q.append("?page=");
            let digits = u64_to_string(p as u64);
            q.append(digits.as_str());
            match page_size {
                Some(z) => {
                    q.append("&page_size=");
                    let more = u64_to_string(z as u64);
                    q.append(more.as_str());
                },
                None => {},
            }
        },
        None => match page_size {
            Some(z) => {
                q.append("?page_size=");
                let digits = u64_to_string(z as u64);
                q.append(digits.as_str());
            },
            None => {},
        },
    }
    proof {
        reveal_strlit("?page=");
        reveal_strlit("&page_size=");
        reveal_strlit("?page_size=");
        assert(q@ =~= page_query_text(page, page_size));
    }
    q
}

/// The outcome of a lookup of the `what` named `id`, answered with HTTP
/// status `status` and body `body`: not found gives an API error that
/// names it, another failing status an API error carrying the body.
pub fn check_lookup(status: u16, what: &str, id: &str, body: String) -> (r: Result<(), IntegrationError>)
    ensures
        is_success(status) ==> r is Ok,
        status == 404 ==> (r matches Err(IntegrationError::ApiError { status: s, message: m })
            && s == 404 && m@ == what@ + " not found: "@ + id@),
        !is_success(status) && status != 404 ==> r == Err::<(), IntegrationError>(
            IntegrationError::ApiError { status, message: body }),
{
    if status == 404 {
        let mut m = String::from_str(what);
        m.append(" not found: ");
        m.append(id);
        proof { reveal_strlit(" not found: "); }
        Err(IntegrationError::ApiError { status: 404, message: m })
    } else if status >= 200 && status < 300 {
        Ok(())
    } else {
        Err(IntegrationError::ApiError { status, message: body })
    }
}

// ===== Endpoints =====

/// The endpoints of the model registry.
#[derive(Debug)]
pub enum RegistryEndpoint {
    /// Sessions
    Sessions,
    /// A session, by its identifier
    Session(String),
    /// The status of a session
    SessionStatus(String),
    /// The token usage of a session
    SessionUsage(String),
    /// Models
    Models,
    /// A model, by its identifier
    Model(String),
    /// The token usage of a model
    ModelUsage(String),
    /// Usage reports
    Usage,
    /// The health check
    Health,
}

/// The path of an endpoint, after the base URL.
pub open spec fn registry_endpoint_path(e: &RegistryEndpoint) -> Seq<char> {
    match e {
        RegistryEndpoint::Sessions => "/api/v1/sessions"@,
        RegistryEndpoint::Session(id) => "/api/v1/sessions/"@ + id@,
        RegistryEndpoint::SessionStatus(id) => "/api/v1/sessions/"@ + id@ + "/status"@,
        RegistryEndpoint::SessionUsage(id) => "/api/v1/sessions/"@ + id@ + "/usage"@,
        RegistryEndpoint::Models => "/api/v1/models"@,
        RegistryEndpoint::Model(id) => "/api/v1/models/"@ + id@,
        RegistryEndpoint::ModelUsage(id) => "/api/v1/models/"@ + id@ + "/usage"@,
        RegistryEndpoint::Usage => "/api/v1/usage"@,
        RegistryEndpoint::Health => "/health"@,
    }
}

impl RegistryEndpoint {
    /// The path of the endpoint, after the base URL.
    pub fn path(&self) -> (p: String)
        ensures
            p@ == registry_endpoint_path(self),
    {
        match self {
            RegistryEndpoint::Sessions => String::from_str("/api/v1/sessions"),
            RegistryEndpoint::Session(id) => {
                let mut p = String::from_str("/api/v1/sessions/");
                p.append(id.as_str());
                p
            },
            RegistryEndpoint::SessionStatus(id) => {
                let mut p = String::from_str("/api/v1/sessions/");
                p.append(id.as_str());
                p.append("/status");
                p
            },
            RegistryEndpoint::SessionUsage(id) => {
                let mut p = String::from_str("/api/v1/sessions/");
                p.append(id.as_str());
                p.append("/usage");
                p
            },
            RegistryEndpoint::Models => String::from_str("/api/v1/models"),
            RegistryEndpoint::Model(id) => {
                let mut p = String::from_str("/api/v1/models/");
                p.append(id.as_str());
                p
            },
            RegistryEndpoint::ModelUsage(id) => {
                let mut p = String::from_str("/api/v1/models/");
                p.append(id.as_str());
                p.append("/usage");
                p
            },
            RegistryEndpoint::Usage => String::from_str("/api/v1/usage"),
            RegistryEndpoint::Health => String::from_str("/health"),
        }
    }
}

impl RegistryConfig {
    /// The address of an endpoint: the base URL followed by its path.
    pub fn endpoint_url(&self, e: &RegistryEndpoint) -> (u: String)
        ensures
            u@ == self.base_url@ + registry_endpoint_path(e),
    {
        let p = e.path();
        let mut u = self.base_url.clone();
        u.append(p.as_str());
        u
    }
}

/// Each session status is written as its own name in lowercase, and that name reads back as it.
pub proof fn lemma_session_status_names(v: SessionStatus)
    ensures
        session_status_text(v) == "active"@ <==> v == SessionStatus::Active,
        session_status_text(v) == "completed"@ <==> v == SessionStatus::Completed,
        session_status_text(v) == "failed"@ <==> v == SessionStatus::Failed,
        session_status_text(v) == "archived"@ <==> v == SessionStatus::Archived,
        session_status_named("active"@) == Some(SessionStatus::Active),
        session_status_named("completed"@) == Some(SessionStatus::Completed),
        session_status_named("failed"@) == Some(SessionStatus::Failed),
        session_status_named("archived"@) == Some(SessionStatus::Archived),
{
    reveal_strlit("active");
    reveal_strlit("completed");
    reveal_strlit("failed");
    reveal_strlit("archived");
    assert("active"@.len() != "completed"@.len());
    assert("active"@[0] != "failed"@[0]);
    assert("active"@.len() != "archived"@.len());
    assert("completed"@.len() != "failed"@.len());
    assert("completed"@.len() != "archived"@.len());
    assert("failed"@.len() != "archived"@.len());
}

} // verus!

//! Settings and records exchanged with the data vault.

use vstd::prelude::*;
use crate::ids::{Timestamp, uuid_text};
use crate::integrations::IntegrationError;
use crate::props::PropertyMap;
use crate::text::{bool_text, bool_to_string};

verus! {

/// Settings of the vault client.
#[derive(Debug)]
pub struct VaultConfig {
    /// Base URL of the vault service
    pub base_url: String,
    /// API key for authentication
    pub api_key: String,
    /// Whether archived data is encrypted
    pub encryption_enabled: bool,
    /// Whether archived data is compressed
    pub compression_enabled: bool,
    /// Request timeout in seconds
    pub timeout_secs: u64,
    /// Batch size of bulk operations
    pub batch_size: usize,
    /// Whether requests and responses are logged
    pub enable_logging: bool,
}

impl VaultConfig {
    /// Settings for the vault at `base_url` with an API key: encryption
    /// and compression on, a 60 s timeout, batches of 100, logging on.
    pub fn new(base_url: &str, api_key: &str) -> (c: Self)
        ensures
            c.base_url@ == base_url@,
            c.api_key@ == api_key@,
            c.encryption_enabled,
            c.compression_enabled,
            c.timeout_secs == 60,
            c.batch_size == 100,
            c.enable_logging,
    {
        VaultConfig {
            base_url: String::from_str(base_url),
            api_key: String::from_str(api_key),
            encryption_enabled: true,
            compression_enabled: true,
            timeout_secs: 60,
            batch_size: 100,
            enable_logging: true,
        }
    }

    /// Settings from the environment: the URL found there (the vault on
    /// the local host when none is) and the API key, which must be set.
    pub fn from_env(env_url: Option<String>, api_key: String) -> (c: Self)
        ensures
            env_url matches Some(u) ==> c.base_url == u,
            env_url is None ==> c.base_url@ == "http://localhost:9000"@,
            c.api_key == api_key,
            c.encryption_enabled,
            c.compression_enabled,
            c.timeout_secs == 60,
            c.batch_size == 100,
            c.enable_logging,
    {
        let base_url = match env_url {
            Some(u) => u,
            None => String::from_str("http://localhost:9000"),
        };
        VaultConfig {
            base_url,
            api_key,
            encryption_enabled: true,
            compression_enabled: true,
            timeout_secs: 60,
            batch_size: 100,
            enable_logging: true,
        }
    }

    /// Enable or disable encryption.
    pub fn with_encryption(self, enabled: bool) -> (c: Self)
        ensures
            c == (VaultConfig { encryption_enabled: enabled, ..self }),
    {
        VaultConfig { encryption_enabled: enabled, ..self }
    }

    /// Enable or disable compression.
    pub fn with_compression(self, enabled: bool) -> (c: Self)
        ensures
            c == (VaultConfig { compression_enabled: enabled, ..self }),
    {
        VaultConfig { compression_enabled: enabled, ..self }
    }

    /// Set the timeout in seconds.
    pub fn with_timeout(self, timeout_secs: u64) -> (c: Self)
        ensures
            c == (VaultConfig { timeout_secs, ..self }),
    {
        VaultConfig { timeout_secs, ..self }
    }

    /// Set the batch size.
    pub fn with_batch_size(self, batch_size: usize) -> (c: Self)
        ensures
            c == (VaultConfig { batch_size, ..self }),
    {
        VaultConfig { batch_size, ..self }
    }

    /// The address of an endpoint: the base URL followed by the path.
    pub fn url(&self, path: &str) -> (u: String)
        ensures
            u@ == self.base_url@ + path@,
    {
        let mut u = self.base_url.clone();
        u.append(path);
        u
    }

    /// The headers that tell the vault whether what is archived is to be
    /// encrypted and compressed.
    pub fn transfer_headers(&self) -> (h: Vec<(String, String)>)
        ensures
            h@.len() == 2,
            h@[0].0@ == "X-Encryption-Enabled"@,
            h@[0].1@ == bool_text(self.encryption_enabled),
            h@[1].0@ == "X-Compression-Enabled"@,
            h@[1].1@ == bool_text(self.compression_enabled),
    {
        let mut h: Vec<(String, String)> = Vec::new();
        h.push((String::from_str("X-Encryption-Enabled"), bool_to_string(self.encryption_enabled)));
        h.push((String::from_str("X-Compression-Enabled"), bool_to_string(self.compression_enabled)));
        h
    }
}

/// Whether an HTTP status reports success (2xx).
pub open spec fn is_success(status: u16) -> bool {
    200 <= status && status < 300
}

/// The outcome of a vault call with HTTP status `status` and body `body`:
/// an API error carrying the body unless the status reports success.
pub fn check_status(status: u16, body: String) -> (r: Result<(), IntegrationError>)
    ensures
        is_success(status) ==> r is Ok,
        !is_success(status) ==> r == Err::<(), IntegrationError>(IntegrationError::ApiError { status, message: body }),
{
    if status >= 200 && status < 300 {
        Ok(())
    } else {
        Err(IntegrationError::ApiError { status, message: body })
    }
}

/// Compliance level of retained data.
#[derive(Debug, Clone, Copy, PartialEq, Eq, Structural)]
pub enum ComplianceLevel {
    /// No special requirements
    Standard,
    /// HIPAA, for healthcare data
    Hipaa,
    /// GDPR, for EU personal data
    Gdpr,
    /// PCI-DSS, for payment card data
    Pci,
    /// SOC 2
    Soc2,
}

/// The lowercase name of a compliance level.
pub open spec fn compliance_text(c: ComplianceLevel) -> Seq<char> {
    match c {
        ComplianceLevel::Standard => "standard"@,
        ComplianceLevel::Hipaa => "hipaa"@,
        ComplianceLevel::Gdpr => "gdpr"@,
        ComplianceLevel::Pci => "pci"@,
        ComplianceLevel::Soc2 => "soc2"@,
    }
}

/// The compliance level with a lowercase name.
pub open spec fn compliance_named(s: Seq<char>) -> Option<ComplianceLevel> {
    if s == "standard"@ { Some(ComplianceLevel::Standard) }
    else if s == "hipaa"@ { Some(ComplianceLevel::Hipaa) }
    else if s == "gdpr"@ { Some(ComplianceLevel::Gdpr) }
    else if s == "pci"@ { Some(ComplianceLevel::Pci) }
    else if s == "soc2"@ { Some(ComplianceLevel::Soc2) }
    else { None }
}

impl ComplianceLevel {
    /// The level's lowercase name.
    pub fn as_str(&self) -> (s: &'static str)
        ensures
            s@ == compliance_text(*self),
    {
        match self {
            ComplianceLevel::Standard => "standard",
            ComplianceLevel::Hipaa => "hipaa",
            ComplianceLevel::Gdpr => "gdpr",
            ComplianceLevel::Pci => "pci",
            ComplianceLevel::Soc2 => "soc2",
        }
    }

    /// The level with a lowercase name.
    pub fn from_name(s: &str) -> (r: Option<ComplianceLevel>)
        ensures
            r == compliance_named(s@),
    {
        if crate::text::str_eq(s, "standard") { Some(ComplianceLevel::Standard) }
        else if crate::text::str_eq(s, "hipaa") { Some(ComplianceLevel::Hipaa) }
        else if crate::text::str_eq(s, "gdpr") { Some(ComplianceLevel::Gdpr) }
        else if crate::text::str_eq(s, "pci") { Some(ComplianceLevel::Pci) }
        else if crate::text::str_eq(s, "soc2") { Some(ComplianceLevel::Soc2) }
        else { None }
    }
}

/// Every level's name reads back as that level.
pub proof fn lemma_compliance_round_trip(c: ComplianceLevel)
    ensures
        compliance_named(compliance_text(c)) == Some(c),
{
    reveal_strlit("standard");
    reveal_strlit("hipaa");
    reveal_strlit("gdpr");
    reveal_strlit("pci");
    reveal_strlit("soc2");
    assert("standard"@.len() == 8 && "hipaa"@.len() == 5 && "gdpr"@.len() == 4 && "pci"@.len() == 3 && "soc2"@.len() == 4);
    assert("gdpr"@[0] != "soc2"@[0]);
}

/// A session's data as archived in the vault.
#[derive(Debug)]
pub struct ArchiveEntry {
    /// Archive identifier
    pub id: String,
    /// Session identifier in the memory graph
    pub session_id: String,
    /// Archived data, as JSON text
    pub data: String,
    /// When the data was archived
    pub archived_at: Timestamp,
    /// Retention period in days
    pub retention_days: i64,
    /// Tags
    pub tags: Vec<String>,
    /// Metadata, each value as JSON text
    pub metadata: PropertyMap,
}

/// A fresh random UUID, as text.
fn fresh_id_text() -> (s: String)
    ensures
        exists|v: u128| s@ == uuid_text(v),
{
    let id = crate::ids::NodeId::new();
    id.to_string()
}

impl ArchiveEntry {
    /// An archive of a session's data, kept for `retention_days`, with a
    /// fresh identifier, made now.
    pub fn new(session_id: String, data: String, retention_days: i64) -> (e: Self)
        ensures
            exists|v: u128| e.id@ == uuid_text(v),
            e.session_id == session_id,
            e.data == data,
            e.retention_days == retention_days,
            e.tags@.len() == 0,
            e.metadata@ == Map::<Seq<char>, Seq<char>>::empty(),
    {
        ArchiveEntry {
            id: fresh_id_text(),
            session_id,
            data,
            archived_at: Timestamp::now(),
            retention_days,
            tags: Vec::new(),
            metadata: PropertyMap::new(),
        }
    }

    /// Add a tag.
    pub fn with_tag(self, tag: String) -> (e: Self)
        ensures
            e.tags@ == self.tags@.push(tag),
            e.id == self.id,
            e.session_id == self.session_id,
            e.data == self.data,
            e.retention_days == self.retention_days,
            e.metadata@ == self.metadata@,
    {
        let mut e = self;
        e.tags.push(tag);
        e
    }

    /// Add a metadata entry (the value as JSON text).
    pub fn with_metadata(self, key: String, value: String) -> (e: Self)
        ensures
            e.metadata@ == self.metadata@.insert(key@, value@),
            e.id == self.id,
            e.session_id == self.session_id,
            e.data == self.data,
            e.retention_days == self.retention_days,
            e.tags == self.tags,
    {
        let mut e = self;
        e.metadata.insert(key, value);
        e
    }
}

/// How long archived data is kept, and under which compliance level.
#[derive(Debug)]
pub struct RetentionPolicy {
    /// Policy identifier
    pub policy_id: String,
    /// Policy name
    pub name: String,
    /// Retention period in days
    pub retention_days: i64,
    /// Whether data is deleted when the period ends
    pub auto_delete: bool,
    /// Compliance level
    pub compliance_level: ComplianceLevel,
    /// Description
    pub description: String,
    /// When the policy was created
    pub created_at: Timestamp,
    /// Tags
    pub tags: Vec<String>,
}

impl RetentionPolicy {
    /// A policy keeping data for `retention_days` under a compliance
    /// level, with a fresh identifier and no auto-deletion.
    pub fn new(name: String, retention_days: i64, compliance_level: ComplianceLevel) -> (p: Self)
        ensures
            exists|v: u128| p.policy_id@ == uuid_text(v),
            p.name == name,
            p.retention_days == retention_days,
            !p.auto_delete,
            p.compliance_level == compliance_level,
            p.description@ == Seq::<char>::empty(),
            p.tags@.len() == 0,
    {
        RetentionPolicy {
            policy_id: fresh_id_text(),
            name,
            retention_days,
            auto_delete: false,
            compliance_level,
            description: String::new(),
            created_at: Timestamp::now(),
            tags: Vec::new(),
        }
    }

    /// Enable or disable auto-deletion.
    pub fn with_auto_delete(self, auto_delete: bool) -> (p: Self)
        ensures
            p == (RetentionPolicy { auto_delete, ..self }),
    {
        RetentionPolicy { auto_delete, ..self }
    }

    /// Set the description.
    pub fn with_description(self, description: String) -> (p: Self)
        ensures
            p == (RetentionPolicy { description, ..self }),
    {
        RetentionPolicy { description, ..self }
    }

    /// Add a tag.
    pub fn with_tag(self, tag: String) -> (p: Self)
        ensures
            p.tags@ == self.tags@.push(tag),
            p.policy_id == self.policy_id,
            p.name == self.name,
            p.retention_days == self.retention_days,
            p.auto_delete == self.auto_delete,
            p.compliance_level == self.compliance_level,
            p.description == self.description,
    {
        let mut p = self;
        p.tags.push(tag);
        p
    }
}

/// The vault's answer to an archive request.
#[derive(Debug)]
pub struct ArchiveResponse {
    /// Archive identifier
    pub archive_id: String,
    /// Session identifier
    pub session_id: String,
    /// Archive status
    pub status: String,
    /// When the session was archived
    pub archived_at: Timestamp,
}

/// A session that could not be archived.
#[derive(Debug)]
pub struct ArchiveFailure {
    /// Session identifier
    pub session_id: String,
    /// Error message
    pub error: String,
}

/// The vault's answer to a batch archive request.
#[derive(Debug)]
pub struct BatchArchiveResponse {
    /// Identifiers archived
    pub archived: Vec<String>,
    /// Sessions that failed, with their errors
    pub failed: Vec<ArchiveFailure>,
    /// Sessions in the batch
    pub total: usize,
    /// Sessions archived
    pub success_count: usize,
}

// ===== Endpoints =====

/// The endpoints of the data vault.
#[derive(Debug)]
pub enum VaultEndpoint {
    /// Archive one session
    Archive,
    /// Archive several sessions
    ArchiveBatch,
    /// An archive, by its identifier
    ArchiveEntry(String),
    /// The retention policy applied to an archive
    ArchivePolicy(String),
    /// Retention policies
    Policies,
    /// The health check
    Health,
}

/// The path of an endpoint, after the base URL.
pub open spec fn vault_endpoint_path(e: &VaultEndpoint) -> Seq<char> {
    match e {
        VaultEndpoint::Archive => "/api/v1/archive"@,
        VaultEndpoint::ArchiveBatch => "/api/v1/archive/batch"@,
        VaultEndpoint::ArchiveEntry(id) => "/api/v1/archive/"@ + id@,
        VaultEndpoint::ArchivePolicy(id) => "/api/v1/archive/"@ + id@ + "/policy"@,
        VaultEndpoint::Policies => "/api/v1/policies"@,
        VaultEndpoint::Health => "/health"@,
    }
}

impl VaultEndpoint {
    /// The path of the endpoint, after the base URL.
    pub fn path(&self) -> (p: String)
        ensures
            p@ == vault_endpoint_path(self),
    {
        match self {
            VaultEndpoint::Archive => String::from_str("/api/v1/archive"),
            VaultEndpoint::ArchiveBatch => String::from_str("/api/v1/archive/batch"),
            VaultEndpoint::ArchiveEntry(id) => {
                let mut p = String::from_str("/api/v1/archive/");
                p.append(id.as_str());
                p
            },
            VaultEndpoint::ArchivePolicy(id) => {
                let mut p = String::from_str("/api/v1/archive/");
                p.append(id.as_str());
                p.append("/policy");
                p
            },
            VaultEndpoint::Policies => String::from_str("/api/v1/policies"),
            VaultEndpoint::Health => String::from_str("/health"),
        }
    }
}

impl VaultConfig {
    /// The address of an endpoint: the base URL followed by its path.
    pub fn endpoint_url(&self, e: &VaultEndpoint) -> (u: String)
        ensures
            u@ == self.base_url@ + vault_endpoint_path(e),
    {
        let p = e.path();
        self.url(p.as_str())
    }
}

/// Each compliance level is written as its own name in lowercase, and that name reads back as it.
pub proof fn lemma_compliance_names(v: ComplianceLevel)
    ensures
        compliance_text(v) == "standard"@ <==> v == ComplianceLevel::Standard,
        compliance_text(v) == "hipaa"@ <==> v == ComplianceLevel::Hipaa,
        compliance_text(v) == "gdpr"@ <==> v == ComplianceLevel::Gdpr,
        compliance_text(v) == "pci"@ <==> v == ComplianceLevel::Pci,
        compliance_text(v) == "soc2"@ <==> v == ComplianceLevel::Soc2,
        compliance_named("standard"@) == Some(ComplianceLevel::Standard),
        compliance_named("hipaa"@) == Some(ComplianceLevel::Hipaa),
        compliance_named("gdpr"@) == Some(ComplianceLevel::Gdpr),
        compliance_named("pci"@) == Some(ComplianceLevel::Pci),
        compliance_named("soc2"@) == Some(ComplianceLevel::Soc2),
{
    reveal_strlit("standard");
    reveal_strlit("hipaa");
    reveal_strlit("gdpr");
    reveal_strlit("pci");
    reveal_strlit("soc2");
    assert("standard"@.len() != "hipaa"@.len());
    assert("standard"@.len() != "gdpr"@.len());
    assert("standard"@.len() != "pci"@.len());
    assert("standard"@.len() != "soc2"@.len());
    assert("hipaa"@.len() != "gdpr"@.len());
    assert("hipaa"@.len() != "pci"@.len());
    assert("hipaa"@.len() != "soc2"@.len());
    assert("gdpr"@.len() != "pci"@.len());
    assert("gdpr"@[0] != "soc2"@[0]);
    assert("pci"@.len() != "soc2"@.len());
}

} // verus!

//! Settings and statistics of the data vault client.

use vstd::prelude::*;
use crate::ids::Timestamp;

verus! {

/// Settings of the data vault client.
#[derive(Debug)]
pub struct VaultConfig {
    /// Base URL of the vault service
    pub base_url: String,
    /// API key for authentication
    pub api_key: String,
    /// Request timeout in seconds
    pub timeout_secs: u64,
    /// Most retry attempts
    pub max_retries: usize,
    /// Whether archived data is compressed
    pub enable_compression: bool,
}

impl VaultConfig {
    /// Settings for the vault at `base_url` with an API key: a 30 s
    /// timeout, three retries and compression.
    pub fn new(base_url: &str, api_key: &str) -> (c: Self)
        ensures
            c.base_url@ == base_url@,
            c.api_key@ == api_key@,
            c.timeout_secs == 30,
            c.max_retries == 3,
            c.enable_compression,
    {
        VaultConfig {
            base_url: String::from_str(base_url),
            api_key: String::from_str(api_key),
            timeout_secs: 30,
            max_retries: 3,
            enable_compression: true,
        }
    }

    /// Set the timeout in seconds.
    pub fn with_timeout(self, timeout_secs: u64) -> (c: Self)
        ensures
            c == (VaultConfig { timeout_secs, ..self }),
    {
        VaultConfig { timeout_secs, ..self }
    }

    /// Set the number of retries.
    pub fn with_max_retries(self, max_retries: usize) -> (c: Self)
        ensures
            c == (VaultConfig { max_retries, ..self }),
    {
        VaultConfig { max_retries, ..self }
    }

    /// Enable or disable compression.
    pub fn with_compression(self, enable: bool) -> (c: Self)
        ensures
            c == (VaultConfig { enable_compression: enable, ..self }),
    {
        VaultConfig { enable_compression: enable, ..self }
    }

    /// The address of an endpoint of the vault.
    pub fn url(&self, path: &str) -> (u: String)
        ensures
            u@ == self.base_url@ + path@,
    {
        crate::clients::build_url(self.base_url.as_str(), path)
    }
}

/// Metadata of an archived session.
#[derive(Debug)]
pub struct ArchivedSession {
    /// Session identifier
    pub session_id: String,
    /// Size of the archived data in bytes
    pub size_bytes: usize,
    /// Whether the data is compressed
    pub compressed: bool,
    /// When the session was archived
    pub archived_at: Timestamp,
    /// Where the archive is stored
    pub storage_location: String,
}

/// Counts of vault operations.
#[derive(Debug, Clone, Copy, PartialEq, Eq, Structural)]
pub struct VaultStats {
    /// Sessions archived
    pub total_archives: u64,
    /// Sessions retrieved
    pub total_retrievals: u64,
    /// Bytes stored
    pub total_bytes: u64,
    /// Errors met
    pub total_errors: u64,
}

impl Default for VaultStats {
    /// All counts zero.
    fn default() -> (s: Self)
        ensures
            s == (VaultStats { total_archives: 0, total_retrievals: 0, total_bytes: 0, total_errors: 0 }),
    {
        VaultStats { total_archives: 0, total_retrievals: 0, total_bytes: 0, total_errors: 0 }
    }
}

// ===== Endpoints =====

/// The endpoints of the data vault service.
#[derive(Debug)]
pub enum VaultEndpoint {
    /// Archive a session
    SessionArchive(String),
    /// The data of an archived session
    SessionData(String),
    /// An archived session, by its identifier
    Session(String),
    /// Archived sessions
    Sessions,
    /// Vault statistics
    Stats,
}

/// The path of an endpoint, after the base URL.
pub open spec fn vault_endpoint_path(e: &VaultEndpoint) -> Seq<char> {
    match e {
        VaultEndpoint::SessionArchive(id) => "/api/v1/sessions/"@ + id@ + "/archive"@,
        VaultEndpoint::SessionData(id) => "/api/v1/sessions/"@ + id@ + "/data"@,
        VaultEndpoint::Session(id) => "/api/v1/sessions/"@ + id@,
        VaultEndpoint::Sessions => "/api/v1/sessions"@,
        VaultEndpoint::Stats => "/api/v1/stats"@,
    }
}

impl VaultEndpoint {
    /// The path of the endpoint, after the base URL.
    pub fn path(&self) -> (p: String)
        ensures
            p@ == vault_endpoint_path(self),
    {
        match self {
            VaultEndpoint::SessionArchive(id) => {
                let mut p = String::from_str("/api/v1/sessions/");
                p.append(id.as_str());
                p.append("/archive");
                p
            },
            VaultEndpoint::SessionData(id) => {
                let mut p = String::from_str("/api/v1/sessions/");
                p.append(id.as_str());
                p.append("/data");
                p
            },
            VaultEndpoint::Session(id) => {
                let mut p = String::from_str("/api/v1/sessions/");
                p.append(id.as_str());
                p
            },
            VaultEndpoint::Sessions => String::from_str("/api/v1/sessions"),
            VaultEndpoint::Stats => String::from_str("/api/v1/stats"),
        }
    }
}

impl VaultConfig {
    /// The address of an endpoint: the base URL followed by its path.
    pub fn endpoint_url(&self, e: &VaultEndpoint) -> (u: String)
        ensures
            u@ == self.base_url@ + vault_endpoint_path(e),
    {
        let p = e.path();
        self.url(p.as_str())
    }
}

} // verus!

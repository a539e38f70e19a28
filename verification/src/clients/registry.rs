//! Settings and statistics of the model registry client.

use vstd::prelude::*;

verus! {

/// Settings of the model registry client.
#[derive(Debug)]
pub struct RegistryConfig {
    /// Base URL of the registry service
    pub base_url: String,
    /// API key for authentication
    pub api_key: String,
    /// Request timeout in seconds
    pub timeout_secs: u64,
    /// Most retry attempts
    pub max_retries: usize,
}

impl RegistryConfig {
    /// Settings for the registry at `base_url` with an API key: a 30 s
    /// timeout and three retries.
    pub fn new(base_url: &str, api_key: &str) -> (c: Self)
        ensures
            c.base_url@ == base_url@,
            c.api_key@ == api_key@,
            c.timeout_secs == 30,
            c.max_retries == 3,
    {
        RegistryConfig { base_url: String::from_str(base_url), api_key: String::from_str(api_key), timeout_secs: 30, max_retries: 3 }
    }

    /// Set the timeout in seconds.
    pub fn with_timeout(self, timeout_secs: u64) -> (c: Self)
        ensures
            c == (RegistryConfig { timeout_secs, ..self }),
    {
        RegistryConfig { timeout_secs, ..self }
    }

    /// Set the number of retries.
    pub fn with_max_retries(self, max_retries: usize) -> (c: Self)
        ensures
            c == (RegistryConfig { max_retries, ..self }),
    {
        RegistryConfig { max_retries, ..self }
    }

    /// The address of an endpoint of the registry.
    pub fn url(&self, path: &str) -> (u: String)
        ensures
            u@ == self.base_url@ + path@,
    {
        crate::clients::build_url(self.base_url.as_str(), path)
    }
}

/// Counts of registry operations.
#[derive(Debug, Clone, Copy, PartialEq, Eq, Structural)]
pub struct RegistryStats {
    /// Models registered
    pub total_models: usize,
    /// API calls made
    pub total_calls: u64,
    /// Errors met
    pub total_errors: u64,
}

impl Default for RegistryStats {
    /// All counts zero.
    fn default() -> (s: Self)
        ensures
            s == (RegistryStats { total_models: 0, total_calls: 0, total_errors: 0 }),
    {
        RegistryStats { total_models: 0, total_calls: 0, total_errors: 0 }
    }
}

// ===== Endpoints =====

/// The endpoints of the model registry service.
#[derive(Debug)]
pub enum RegistryEndpoint {
    /// Models
    Models,
    /// A model, by name and version
    ModelVersion(String, String),
    /// Registry statistics
    Stats,
}

/// The path of an endpoint, after the base URL.
pub open spec fn registry_endpoint_path(e: &RegistryEndpoint) -> Seq<char> {
    match e {
        RegistryEndpoint::Models => "/api/v1/models"@,
        RegistryEndpoint::ModelVersion(name, version) => "/api/v1/models/"@ + name@ + "/"@ + version@,
        RegistryEndpoint::Stats => "/api/v1/stats"@,
    }
}

impl RegistryEndpoint {
    /// The path of the endpoint, after the base URL.
    pub fn path(&self) -> (p: String)
        ensures
            p@ == registry_endpoint_path(self),
    {
        match self {
            RegistryEndpoint::Models => String::from_str("/api/v1/models"),
            RegistryEndpoint::ModelVersion(name, version) => {
                let mut p = String::from_str("/api/v1/models/");
                p.append(name.as_str());
                p.append("/");
                p.append(version.as_str());
                p
            },
            RegistryEndpoint::Stats => String::from_str("/api/v1/stats"),
        }
    }
}

impl RegistryConfig {
    /// The address of an endpoint: the base URL followed by its path.
    pub fn endpoint_url(&self, e: &RegistryEndpoint) -> (u: String)
        ensures
            u@ == self.base_url@ + registry_endpoint_path(e),
    {
        let p = e.path();
        self.url(p.as_str())
    }
}

} // verus!

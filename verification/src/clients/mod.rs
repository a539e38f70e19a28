//! Standalone HTTP clients of the model registry and the data vault:
//! their settings, statistics and the handling of answers.

pub mod registry;
pub mod vault;

use vstd::prelude::*;

verus! {

/// Errors of the standalone clients.
#[derive(Debug)]
pub enum ClientError {
    /// The transport failed, with its message
    HttpError(String),
    /// The service answered with something unexpected
    InvalidResponse(String),
    /// The credentials were refused
    AuthenticationError(String),
    /// The resource does not exist
    NotFound(String),
    /// Too many requests
    RateLimitExceeded(String),
    /// The client could not be set up
    ConfigError(String),
    /// A payload could not be read or written, with the message
    SerializationError(String),
    /// Any other failure
    Generic(String),
}

/// The error an HTTP answer with status `status` carries: none for 200,
/// 201 and 204.
pub open spec fn response_error_kind(status: u16) -> int {
    if status == 200 || status == 201 || status == 204 { 0 }
    else if status == 401 || status == 403 { 1 }
    else if status == 404 { 2 }
    else if status == 429 { 3 }
    else { 4 }
}

/// The outcome of an HTTP answer: success for 200, 201 and 204; refused
/// credentials for 401 and 403; a missing resource for 404; a rate limit
/// for 429; else an invalid response naming the status (`status_text`, as
/// the status displays) and the body.
pub fn check_response(status: u16, status_text: &str, body: &str) -> (r: Result<(), ClientError>)
    ensures
        response_error_kind(status) == 0 ==> r is Ok,
        response_error_kind(status) == 1 ==> (r matches Err(ClientError::AuthenticationError(m)) && m@ == body@),
        response_error_kind(status) == 2 ==> (r matches Err(ClientError::NotFound(m)) && m@ == body@),
        response_error_kind(status) == 3 ==> (r matches Err(ClientError::RateLimitExceeded(m)) && m@ == body@),
        response_error_kind(status) == 4 ==> (r matches Err(ClientError::InvalidResponse(m))
            && m@ == "HTTP "@ + status_text@ + ": "@ + body@),
{
    if status == 200 || status == 201 || status == 204 {
        Ok(())
    } else if status == 401 || status == 403 {
        Err(ClientError::AuthenticationError(String::from_str(body)))
    } else if status == 404 {
        Err(ClientError::NotFound(String::from_str(body)))
    } else if status == 429 {
        Err(ClientError::RateLimitExceeded(String::from_str(body)))
    } else {
        let mut m = String::from_str("HTTP ");
        m.append(status_text);
        m.append(": ");
        m.append(body);
        Err(ClientError::InvalidResponse(m))
    }
}

/// The address of an endpoint: the base URL followed by the path.
pub fn build_url(base_url: &str, path: &str) -> (u: String)
    ensures
        u@ == base_url@ + path@,
{
    let mut u = String::from_str(base_url);
    u.append(path);
    u
}

} // verus!

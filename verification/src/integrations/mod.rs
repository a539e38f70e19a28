//! Clients' shared pieces for the external services of the ecosystem: the
//! error type, the circuit breaker settings and the retry decisions.

pub mod registry;
pub mod vault;
pub mod retention;

use vstd::prelude::*;
use crate::error::Error;
use crate::ids::Span;
use crate::text::decimal;

verus! {

/// Errors of calls to external services.
#[derive(Debug)]
pub enum IntegrationError {
    /// HTTP request error
    HttpError(String),
    /// Authentication error
    AuthenticationError(String),
    /// API error response
    ApiError {
        /// HTTP status code
        status: u16,
        /// Error message
        message: String,
    },
    /// Connection error
    ConnectionError(String),
    /// Timeout, after the given number of milliseconds
    Timeout(u64),
    /// Circuit breaker open
    CircuitBreakerOpen(String),
    /// Invalid configuration
    InvalidConfig(String),
    /// Serialization error
    Serialization(String),
}

/// The message of an integration error.
pub open spec fn integration_error_text(e: &IntegrationError) -> Seq<char> {
    match e {
        IntegrationError::HttpError(m) => "HTTP request failed: "@ + m@,
        IntegrationError::AuthenticationError(m) => "Authentication failed: "@ + m@,
        IntegrationError::ApiError { status, message } => "API error: "@ + decimal(*status as nat) + " - "@ + message@,
        IntegrationError::ConnectionError(m) => "Connection error: "@ + m@,
        IntegrationError::Timeout(ms) => "Request timeout after "@ + decimal(*ms as nat) + "ms"@,
        IntegrationError::CircuitBreakerOpen(m) => "Circuit breaker open: "@ + m@,
        IntegrationError::InvalidConfig(m) => "Invalid configuration: "@ + m@,
        IntegrationError::Serialization(m) => "Serialization error: "@ + m@,
    }
}

/// The timeout reported when a transport timed out.
pub const TRANSPORT_TIMEOUT_MS: u64 = 30_000;

impl IntegrationError {
    /// The error's message.
    pub fn to_string(&self) -> (s: String)
        ensures
            s@ == integration_error_text(self),
    {
        let (prefix, detail): (&str, &str) = match self {
            IntegrationError::HttpError(m) => ("HTTP request failed: ", m.as_str()),
            IntegrationError::AuthenticationError(m) => ("Authentication failed: ", m.as_str()),
            IntegrationError::ApiError { status, message } => {
                let mut s = String::from_str("API error: ");
                let code = crate::text::u64_to_string(*status as u64);
                s.append(code.as_str());
                s.append(" - ");
                s.append(message.as_str());
                return s;
            },
            IntegrationError::ConnectionError(m) => ("Connection error: ", m.as_str()),
            IntegrationError::Timeout(ms) => {
                let mut s = String::from_str("Request timeout after ");
                let n = crate::text::u64_to_string(*ms);
                s.append(n.as_str());
                s.append("ms");
                return s;
            },
            IntegrationError::CircuitBreakerOpen(m) => ("Circuit breaker open: ", m.as_str()),
            IntegrationError::InvalidConfig(m) => ("Invalid configuration: ", m.as_str()),
            IntegrationError::Serialization(m) => ("Serialization error: ", m.as_str()),
        };
        let mut s = String::from_str(prefix);
        s.append(detail);
        s
    }

    /// The graph error an integration error becomes: an "other" error
    /// carrying its message.
    pub fn into_error(self) -> (e: Error)
        ensures
            e matches Error::Other(m) && m@ == integration_error_text(&self),
    {
        Error::Other(self.to_string())
    }

    /// The error of a failed transport: a timeout when it timed out, a
    /// connection error when it could not connect, else an HTTP error;
    /// `text` is the transport's message.
    pub fn from_transport_failure(is_timeout: bool, is_connect: bool, text: String) -> (e: Self)
        ensures
            is_timeout ==> e == IntegrationError::Timeout(TRANSPORT_TIMEOUT_MS),
            !is_timeout && is_connect ==> e == IntegrationError::ConnectionError(text),
            !is_timeout && !is_connect ==> e == IntegrationError::HttpError(text),
    {
        if is_timeout {
            IntegrationError::Timeout(TRANSPORT_TIMEOUT_MS)
        } else if is_connect {
            IntegrationError::ConnectionError(text)
        } else {
            IntegrationError::HttpError(text)
        }
    }

    /// The error of a payload that could not be read or written.
    pub fn from_serialization_failure(text: String) -> (e: Self)
        ensures
            e == IntegrationError::Serialization(text),
    {
        IntegrationError::Serialization(text)
    }
}

/// Settings of a circuit breaker for calls to an external service.
#[derive(Debug, Clone, Copy, PartialEq, Eq, Structural)]
pub struct CircuitBreaker {
    /// Failures that open the circuit
    pub failure_threshold: usize,
    /// Successes that close it again
    pub success_threshold: usize,
    /// How long the circuit stays open
    pub timeout_duration: Span,
}

impl CircuitBreaker {
    /// A circuit breaker with the given thresholds and open time.
    pub fn new(failure_threshold: usize, success_threshold: usize, timeout_duration: Span) -> (c: Self)
        ensures
            c == (CircuitBreaker { failure_threshold, success_threshold, timeout_duration }),
    {
        CircuitBreaker { failure_threshold, success_threshold, timeout_duration }
    }

    /// The default settings: open after five failures, close after two
    /// successes, stay open for a minute.
    pub fn default_config() -> (c: Self)
        ensures
            c == (CircuitBreaker { failure_threshold: 5, success_threshold: 2, timeout_duration: Span { secs: 60, nanos: 0 } }),
    {
        CircuitBreaker { failure_threshold: 5, success_threshold: 2, timeout_duration: Span::from_secs(60) }
    }
}

/// How calls to an external service are retried.
#[derive(Debug, Clone, Copy, PartialEq, Eq, Structural)]
pub struct RetryPolicy {
    /// Most attempts, the first included
    pub max_attempts: usize,
    /// Delay before the first retry
    pub initial_delay: Span,
    /// Longest delay between retries
    pub max_delay: Span,
    /// Factor the delay grows by, as the bits of an `f64`
    pub backoff_multiplier_bits: u64,
    /// Whether a timeout is retried
    pub retry_on_timeout: bool,
}

/// The bits of the `f64` value 2.0.
pub const TWO_F64_BITS: u64 = 0x4000_0000_0000_0000;

impl RetryPolicy {
    /// Three attempts, from 100 ms up to 5 s apart, doubling, retrying
    /// timeouts.
    pub fn new() -> (p: Self)
        ensures
            p == (RetryPolicy {
                max_attempts: 3,
                initial_delay: Span { secs: 0, nanos: 100_000_000 },
                max_delay: Span { secs: 5, nanos: 0 },
                backoff_multiplier_bits: TWO_F64_BITS,
                retry_on_timeout: true,
            }),
    {
        RetryPolicy {
            max_attempts: 3,
            initial_delay: Span::from_millis(100),
            max_delay: Span::from_secs(5),
            backoff_multiplier_bits: TWO_F64_BITS,
            retry_on_timeout: true,
        }
    }

    /// Set the number of attempts.
    pub fn with_max_attempts(self, max_attempts: usize) -> (p: Self)
        ensures
            p == (RetryPolicy { max_attempts, ..self }),
    {
        RetryPolicy { max_attempts, ..self }
    }

    /// Set the first delay.
    pub fn with_initial_delay(self, delay: Span) -> (p: Self)
        ensures
            p == (RetryPolicy { initial_delay: delay, ..self }),
    {
        RetryPolicy { initial_delay: delay, ..self }
    }

    /// Set the growth factor of the delay (the bits of an `f64`).
    pub fn with_backoff_multiplier_bits(self, bits: u64) -> (p: Self)
        ensures
            p == (RetryPolicy { backoff_multiplier_bits: bits, ..self }),
    {
        RetryPolicy { backoff_multiplier_bits: bits, ..self }
    }
}

/// Whether an error is worth another attempt: timeouts when the policy
/// says so, connection and HTTP failures, and server errors (5xx).
pub open spec fn retryable(e: &IntegrationError, retry_on_timeout: bool) -> bool {
    match e {
        IntegrationError::Timeout(_) => retry_on_timeout,
        IntegrationError::ConnectionError(_) => true,
        IntegrationError::HttpError(_) => true,
        IntegrationError::ApiError { status, .. } => 500 <= *status && *status < 600,
        _ => false,
    }
}

impl RetryPolicy {
    /// After attempt number `attempt` (counting from one) failed with
    /// `err`: whether to try again.
    pub fn should_retry(&self, attempt: usize, err: &IntegrationError) -> (r: bool)
        ensures
            r == (retryable(err, self.retry_on_timeout) && attempt < self.max_attempts),
    {
        let worth = match err {
            IntegrationError::Timeout(_) => self.retry_on_timeout,
            IntegrationError::ConnectionError(_) => true,
            IntegrationError::HttpError(_) => true,
            IntegrationError::ApiError { status, .. } => *status >= 500 && *status < 600,
            _ => false,
        };
        worth && attempt < self.max_attempts
    }
}

} // verus!

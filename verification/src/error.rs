//! Provider errors, their coarse categories, and redacted secrets.

use crate::duration::Duration;
use vstd::prelude::*;

verus! {

/// A coarse category that callers can use for retry and telemetry policy.
#[derive(Debug, Clone, Copy, PartialEq, Eq, Structural)]
pub enum ErrorKind {
    Configuration,
    Authentication,
    RateLimited,
    Server,
    Transport,
    Decode,
    Cancelled,
    Timeout,
    Unsupported,
    InvalidRequest,
    Provider,
}

/// Errors exposed by provider implementations. The underlying causes of
/// transport and decode failures are kept as their messages.
#[derive(Debug)]
#[non_exhaustive]
pub enum LlmError {
    InvalidRequest(String),
    Configuration(String),
    Authentication,
    RateLimited { retry_after: Option<Duration> },
    Server(String),
    Transport(String),
    Decode(String),
    Cancelled,
    Timeout,
    Unsupported(String),
    Provider(String),
}

/// The category of an error: one per variant.
pub open spec fn error_kind(e: LlmError) -> ErrorKind {
    match e {
        LlmError::InvalidRequest(_) => ErrorKind::InvalidRequest,
        LlmError::Configuration(_) => ErrorKind::Configuration,
        LlmError::Authentication => ErrorKind::Authentication,
        LlmError::RateLimited { .. } => ErrorKind::RateLimited,
        LlmError::Server(_) => ErrorKind::Server,
        LlmError::Transport(_) => ErrorKind::Transport,
        LlmError::Decode(_) => ErrorKind::Decode,
        LlmError::Cancelled => ErrorKind::Cancelled,
        LlmError::Timeout => ErrorKind::Timeout,
        LlmError::Unsupported(_) => ErrorKind::Unsupported,
        LlmError::Provider(_) => ErrorKind::Provider,
    }
}

/// The transient categories: rate limits, server errors, transport failures
/// and timeouts.
pub open spec fn kind_is_transient(k: ErrorKind) -> bool {
    k == ErrorKind::RateLimited || k == ErrorKind::Server || k == ErrorKind::Transport || k
        == ErrorKind::Timeout
}

impl LlmError {
    /// The category of this error.
    pub fn kind(&self) -> (k: ErrorKind)
        ensures
            k == error_kind(*self),
    {
        match self {
            LlmError::InvalidRequest(_) => ErrorKind::InvalidRequest,
            LlmError::Configuration(_) => ErrorKind::Configuration,
            LlmError::Authentication => ErrorKind::Authentication,
            LlmError::RateLimited { .. } => ErrorKind::RateLimited,
            LlmError::Server(_) => ErrorKind::Server,
            LlmError::Transport(_) => ErrorKind::Transport,
            LlmError::Decode(_) => ErrorKind::Decode,
            LlmError::Cancelled => ErrorKind::Cancelled,
            LlmError::Timeout => ErrorKind::Timeout,
            LlmError::Unsupported(_) => ErrorKind::Unsupported,
            LlmError::Provider(_) => ErrorKind::Provider,
        }
    }

    /// Whether the error is transient and the request may be repeated.
    pub fn is_retryable(&self) -> (b: bool)
        ensures
            b == kind_is_transient(error_kind(*self)),
    {
        let k = self.kind();
        match k {
            ErrorKind::RateLimited | ErrorKind::Server | ErrorKind::Transport | ErrorKind::Timeout => true,
            _ => false,
        }
    }

    /// A copy of the error.
    pub fn copy(&self) -> (r: LlmError)
        ensures
            error_kind(r) == error_kind(*self),
            r == *self,
    {
        match self {
            LlmError::InvalidRequest(m) => LlmError::InvalidRequest(m.clone()),
            LlmError::Configuration(m) => LlmError::Configuration(m.clone()),
            LlmError::Authentication => LlmError::Authentication,
            LlmError::RateLimited { retry_after } => LlmError::RateLimited { retry_after: *retry_after },
            LlmError::Server(m) => LlmError::Server(m.clone()),
            LlmError::Transport(m) => LlmError::Transport(m.clone()),
            LlmError::Decode(m) => LlmError::Decode(m.clone()),
            LlmError::Cancelled => LlmError::Cancelled,
            LlmError::Timeout => LlmError::Timeout,
            LlmError::Unsupported(m) => LlmError::Unsupported(m.clone()),
            LlmError::Provider(m) => LlmError::Provider(m.clone()),
        }
    }
}

/// A secret string whose text is only handed out by [`Secret::expose`]. It has
/// no `Debug` or `Display`; [`Secret::redacted`] is the text to print instead.
pub struct Secret(String);

impl View for Secret {
    type V = Seq<char>;

    /// The secret text.
    closed spec fn view(&self) -> Seq<char> {
        self.0@
    }
}

impl Secret {
    /// Wraps a secret value.
    pub fn new(value: &str) -> (s: Secret)
        ensures
            s@ == value@,
    {
        Secret(value.to_owned())
    }

    /// The secret value.
    pub fn expose(&self) -> (v: &str)
        ensures
            v@ == self@,
    {
        self.0.as_str()
    }

    /// What is printed in place of the value: `Secret(REDACTED)`.
    pub fn redacted(&self) -> (t: String)
        ensures
            t@ == "Secret(REDACTED)"@,
    {
        String::from_str("Secret(REDACTED)")
    }
}

impl Clone for Secret {
    fn clone(&self) -> (r: Secret)
        ensures
            r@ == self@,
    {
        Secret(self.0.clone())
    }
}

impl Default for Secret {
    fn default() -> (r: Secret)
        ensures
            r@ == Seq::<char>::empty(),
    {
        Secret(String::new())
    }
}

} // verus!

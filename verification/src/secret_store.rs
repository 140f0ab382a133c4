//! The storage interface for raw secrets and its error type.
//!
//! Stores hand back secret strings without interpreting them; provider
//! logic decides what a secret means.

use vstd::prelude::*;
use vstd::string::*;

verus! {

/// Errors that a secret store reports.
#[derive(Debug)]
pub enum SecretError {
    NotFound(String),
    Unavailable(String),
    AccessDenied(String),
    InvalidFormat(String),
    Network(String),
}

impl SecretError {
    /// The human-readable text of the error.
    pub open spec fn message_spec(&self) -> Seq<char> {
        match self {
            SecretError::NotFound(s) => "secret not found: "@ + s@,
            SecretError::Unavailable(s) => "storage unavailable: "@ + s@,
            SecretError::AccessDenied(s) => "access denied: "@ + s@,
            SecretError::InvalidFormat(s) => "invalid format: "@ + s@,
            SecretError::Network(s) => "network error: "@ + s@,
        }
    }

    /// The human-readable text of the error.
    pub fn message(&self) -> (text: String)
        ensures
            text@ == self.message_spec(),
    {
        match self {
            SecretError::NotFound(s) => String::from_str("secret not found: ").concat(s.as_str()),
            SecretError::Unavailable(s) => String::from_str("storage unavailable: ").concat(
                s.as_str(),
            ),
            SecretError::AccessDenied(s) => String::from_str("access denied: ").concat(s.as_str()),
            SecretError::InvalidFormat(s) => String::from_str("invalid format: ").concat(
                s.as_str(),
            ),
            SecretError::Network(s) => String::from_str("network error: ").concat(s.as_str()),
        }
    }
}

/// A backend that stores and retrieves raw secret strings.
pub trait SecretStore {
    /// The secret stored under `key`, uninterpreted.
    fn get(&self, key: &str) -> Result<String, SecretError>;

    /// Whether the backend can be reached; meant to be a cheap check that
    /// reads no secret.
    fn health_check(&self) -> Result<(), SecretError>;

    /// A human-readable name of the backend.
    fn name(&self) -> &'static str;
}

} // verus!

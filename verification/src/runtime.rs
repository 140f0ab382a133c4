//! Runtime token operations: the token a provider hands out and the errors
//! that fetching it can end in.

use std::collections::HashMap;
use vstd::prelude::*;
use vstd::string::*;
use crate::secret_store::SecretError;

verus! {

/// A token obtained from a provider at run time.
#[derive(Debug, Clone)]
pub struct TokenResponse {
    /// The token or secret value.
    pub access_token: String,
    /// The kind of token, such as "Bearer".
    pub token_type: String,
    /// Seconds until the token expires, counted from when it was issued.
    pub expires_in: u64,
    /// Provider-specific details, such as a project or region.
    pub metadata: HashMap<String, String>,
}

/// Errors of runtime credential operations.
#[derive(Debug)]
pub enum RuntimeError {
    NotConfigured(String),
    Network(String),
    AuthFailed(String),
    Expired,
    InvalidResponse(String),
    SecretStore(SecretError),
}

impl RuntimeError {
    /// The human-readable text of the error.
    pub open spec fn message_spec(&self) -> Seq<char> {
        match self {
            RuntimeError::NotConfigured(s) => "provider not configured: "@ + s@,
            RuntimeError::Network(s) => "network error: "@ + s@,
            RuntimeError::AuthFailed(s) => "authentication failed: "@ + s@,
            RuntimeError::Expired => "token expired"@,
            RuntimeError::InvalidResponse(s) => "invalid response: "@ + s@,
            RuntimeError::SecretStore(e) => "secret store error: "@ + e.message_spec(),
        }
    }

    /// The human-readable text of the error.
    pub fn message(&self) -> (text: String)
        ensures
            text@ == self.message_spec(),
    {
        match self {
            RuntimeError::NotConfigured(s) => String::from_str("provider not configured: ").concat(
                s.as_str(),
            ),
            RuntimeError::Network(s) => String::from_str("network error: ").concat(s.as_str()),
            RuntimeError::AuthFailed(s) => String::from_str("authentication failed: ").concat(
                s.as_str(),
            ),
            RuntimeError::Expired => String::from_str("token expired"),
            RuntimeError::InvalidResponse(s) => String::from_str("invalid response: ").concat(
                s.as_str(),
            ),
            RuntimeError::SecretStore(e) => {
                let inner = e.message();
                String::from_str("secret store error: ").concat(inner.as_str())
            },
        }
    }
}

impl From<SecretError> for RuntimeError {
    fn from(e: SecretError) -> (r: RuntimeError) {
        RuntimeError::SecretStore(e)
    }
}

impl vstd::std_specs::convert::FromSpecImpl<SecretError> for RuntimeError {
    open spec fn obeys_from_spec() -> bool {
        true
    }

    open spec fn from_spec(e: SecretError) -> RuntimeError {
        RuntimeError::SecretStore(e)
    }
}

} // verus!

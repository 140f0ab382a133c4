//! Credential handling for sandbox providers: a secret store, a token cache
//! driven by explicit clock readings, and the Vertex AI OAuth helpers.

pub mod name_table;
pub mod runtime;
pub mod secret_store;
pub mod token_cache;
pub mod text;
pub mod oauth_intercept;
pub mod database;
pub mod vertex;
pub mod http_status;

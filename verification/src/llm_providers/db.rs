//! The stored form of providers.
use vstd::prelude::*;

verus! {

/// A stored provider. Ids are the 128-bit values of UUIDs; times are microseconds since the
/// Unix epoch.
#[derive(Debug)]
pub struct LlmProvider {
    pub id: u128,
    pub name: String,
    /// The kind of service, such as `openai` (`type` in JSON and in the database).
    pub provider_type: String,
    pub api_key: String,
    pub base_url: Option<String>,
    pub created_at: i64,
    pub updated_at: i64,
}

/// A provider to store.
#[derive(Debug)]
pub struct CreateProviderRequest {
    pub name: String,
    /// The kind of service (`type` in JSON).
    pub provider_type: String,
    pub api_key: String,
    pub base_url: Option<String>,
}

} // verus!

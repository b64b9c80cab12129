//! The stored form of agents.
use vstd::prelude::*;

verus! {

/// A stored agent. Ids are the 128-bit values of UUIDs; times are microseconds since the
/// Unix epoch.
#[derive(Debug)]
pub struct Agent {
    pub id: u128,
    pub user_id: u128,
    pub model_id: u128,
    pub parent_id: Option<u128>,
    pub name: String,
    pub description: Option<String>,
    pub system_prompt: String,
    pub created_at: i64,
    pub updated_at: i64,
}

/// An agent to store.
#[derive(Debug)]
pub struct CreateAgentRequest {
    pub user_id: u128,
    pub model_id: u128,
    pub name: String,
    pub description: Option<String>,
    pub system_prompt: String,
}

} // verus!

//! The stored form of sessions.
use vstd::prelude::*;

verus! {

/// A stored session. Ids are the 128-bit values of UUIDs; times are microseconds since the
/// Unix epoch.
#[derive(Debug)]
pub struct Session {
    pub id: u128,
    pub agent_id: u128,
    pub user_id: u128,
    pub title: Option<String>,
    pub started_at: i64,
    pub ended_at: Option<i64>,
    pub is_active: bool,
    pub created_at: i64,
    pub updated_at: i64,
}

/// A session to store.
#[derive(Debug)]
pub struct CreateSessionRequest {
    pub agent_id: u128,
    pub user_id: u128,
    pub title: Option<String>,
}

} // verus!

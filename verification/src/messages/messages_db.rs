//! The stored form of chat messages.
use vstd::prelude::*;
use crate::json::JsonValue;

verus! {

/// A stored message. Ids are the 128-bit values of UUIDs; times are microseconds since
/// the Unix epoch.
#[derive(Debug)]
pub struct Message {
    pub id: u128,
    pub session_id: u128,
    pub role: String,
    pub content: String,
    pub timestamp: i64,
    pub metadata: Option<JsonValue>,
    pub created_at: i64,
    pub updated_at: i64,
}

/// A message to store.
#[derive(Debug)]
pub struct CreateMessageRequest {
    pub session_id: u128,
    pub role: String,
    pub content: String,
}

/// A message to store together with its metadata.
#[derive(Debug)]
pub struct CreateMessageWithMetaRequest {
    pub session_id: u128,
    pub role: String,
    pub content: String,
    pub metadata: Option<JsonValue>,
}

} // verus!

//! The stored form of models.
use vstd::prelude::*;

verus! {

/// A stored model. Ids are the 128-bit values of UUIDs; times are microseconds since the
/// Unix epoch.
#[derive(Debug)]
pub struct LlmModel {
    pub id: u128,
    pub provider_id: u128,
    pub name: String,
    pub model_identifier: String,
    pub created_at: i64,
    pub updated_at: i64,
}

/// A model to store.
#[derive(Debug)]
pub struct CreateModelRequest {
    pub provider_id: u128,
    pub name: String,
    pub model_identifier: String,
}

} // verus!

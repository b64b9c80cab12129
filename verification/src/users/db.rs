//! The stored form of users.
use vstd::prelude::*;

verus! {

/// A stored user. Ids are the 128-bit values of UUIDs; times are microseconds since the
/// Unix epoch.
#[derive(Debug)]
pub struct User {
    pub id: u128,
    pub username: String,
    pub email: Option<String>,
    pub created_at: i64,
    pub updated_at: i64,
}

} // verus!

//! Sessions: one conversation of a user with an agent.
pub mod session_service;
pub mod sessions_db;

//! Agents: a model, a system prompt, and a name, owned by a user.
pub mod agent_service;
pub mod db;

//! Verified core of the AgentDispatch LLM agent service.
pub mod agents;
pub mod config;
pub mod crypto;
pub mod db;
pub mod error;
pub mod handler;
pub mod id_set;
pub mod json;
pub mod llm;
pub mod llm_models;
pub mod llm_providers;
pub mod routes;
pub mod sessions;
pub mod messages;
pub mod telegram;
pub mod text;
pub mod users;
pub mod views;

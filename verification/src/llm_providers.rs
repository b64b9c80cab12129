//! Providers: an LLM service, its API key, and where to reach it.
pub mod db;
pub mod provider_service;

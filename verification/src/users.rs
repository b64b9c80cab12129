//! The users of the service; a single basic user owns everything for now.
pub mod db;
pub mod user_service;

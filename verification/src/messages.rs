//! Chat messages and the agent loop that answers them.
pub mod agent_loop_service;
pub mod message_service;
pub mod messages_db;
pub mod service;
pub mod tool_call_service;

//! Talking to OpenAI-compatible models and running the tools they call.
pub mod llm_adapter;
pub mod tool_registry;

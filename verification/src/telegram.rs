//! The Telegram connector: bots that answer their users through an agent.
pub mod telegram_adapter;
pub mod telegram_service;
pub mod telegram_supervisor;

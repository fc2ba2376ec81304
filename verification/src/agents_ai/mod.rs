//! Chat-client agents: client metadata, message stores, threads, and how an
//! agent assembles the messages it sends.

pub mod chat_client;
pub mod chat_client_agent;
pub mod chat_client_agent_thread;
pub mod chat_message_store;

//! Core agent abstractions: messages, responses, usage and threads.

pub mod actor_thread;
pub mod agent;
pub mod error;
pub mod message;
pub mod response;
pub mod thread;
pub mod usage;

//! Workflows: executors joined by edges, message routing, state and runs.

pub mod edge;
pub mod error;
pub mod executor;
pub mod message_router;
pub mod workflow;
pub mod workflow_builder;
pub mod state;
pub mod events;
pub mod run;
pub mod context;
pub mod execution;

//! Agent and workflow abstractions: chat messages and responses, conversation
//! threads, and workflows of executors joined by edges, with message routing,
//! scoped workflow state and ownership of a workflow by one run.

pub mod external;
pub mod text;
pub mod assoc;
pub mod agents_traits;
pub mod agents_workflows;
pub mod agents_ai;

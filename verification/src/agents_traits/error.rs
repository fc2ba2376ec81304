//! Errors of agent operations.
use vstd::prelude::*;

verus! {

/// Errors that can occur during agent operations
#[derive(Debug)]
pub enum AgentError {
    /// Error during agent execution
    ExecutionError(String),
    /// Error during serialization/deserialization
    SerializationError(serde_json::Error),
    /// Error during thread operations
    ThreadError(String),
    /// Invalid operation
    InvalidOperation(String),
    /// Service not found
    ServiceNotFound(String),
    /// Service error
    ServiceError(String),
    /// IO error
    IoError(std::io::Error),
    /// Generic error
    Other(String),
}

} // verus!

verus! {

impl From<String> for AgentError {
    fn from(s: String) -> (r: Self) {
        AgentError::Other(s)
    }
}

impl vstd::std_specs::convert::FromSpecImpl<String> for AgentError {
    open spec fn obeys_from_spec() -> bool {
        true
    }

    open spec fn from_spec(v: String) -> AgentError {
        AgentError::Other(v)
    }
}

impl From<serde_json::Error> for AgentError {
    fn from(e: serde_json::Error) -> (r: Self) {
        AgentError::SerializationError(e)
    }
}

impl vstd::std_specs::convert::FromSpecImpl<serde_json::Error> for AgentError {
    open spec fn obeys_from_spec() -> bool {
        true
    }

    open spec fn from_spec(v: serde_json::Error) -> AgentError {
        AgentError::SerializationError(v)
    }
}

impl From<std::io::Error> for AgentError {
    fn from(e: std::io::Error) -> (r: Self) {
        AgentError::IoError(e)
    }
}

impl vstd::std_specs::convert::FromSpecImpl<std::io::Error> for AgentError {
    open spec fn obeys_from_spec() -> bool {
        true
    }

    open spec fn from_spec(v: std::io::Error) -> AgentError {
        AgentError::IoError(v)
    }
}

impl AgentError {
    /// The generic error with the given text, as `From<&str>` makes it.
    pub fn other(s: &str) -> (r: Self)
        ensures
            r matches AgentError::Other(m) && m@ == s@,
    {
        AgentError::Other(s.to_owned())
    }
}

} // verus!

//! Errors of workflow operations.
use vstd::prelude::*;
use crate::text::IntoText;

verus! {

/// Errors that can occur during workflow operations
#[derive(Debug)]
#[allow(inconsistent_fields)]
pub enum WorkflowError {
    ExecutorNotFound(String),
    ExecutorAlreadyExists(String),
    ExecutorUnbound(String),
    EdgeAlreadyExists(String, String),
    InvalidConfiguration { message: String },
    RunFailed { message: String },
    StateError { message: String },
    SerializationError { source: serde_json::Error },
    AgentError { source: crate::agents_traits::error::AgentError },
    AsyncError { message: String },
    OwnershipError { message: String },
}

} // verus!

verus! {

impl WorkflowError {
    pub fn invalid_configuration<S: IntoText>(message: S) -> (r: Self)
        ensures
            r matches WorkflowError::InvalidConfiguration { message: m } && m@ == message.text_view(),
    {
        WorkflowError::InvalidConfiguration { message: message.into_text() }
    }

    pub fn run_failed<S: IntoText>(message: S) -> (r: Self)
        ensures
            r matches WorkflowError::RunFailed { message: m } && m@ == message.text_view(),
    {
        WorkflowError::RunFailed { message: message.into_text() }
    }

    pub fn state_error<S: IntoText>(message: S) -> (r: Self)
        ensures
            r matches WorkflowError::StateError { message: m } && m@ == message.text_view(),
    {
        WorkflowError::StateError { message: message.into_text() }
    }

    pub fn async_error<S: IntoText>(message: S) -> (r: Self)
        ensures
            r matches WorkflowError::AsyncError { message: m } && m@ == message.text_view(),
    {
        WorkflowError::AsyncError { message: message.into_text() }
    }

    pub fn ownership_error<S: IntoText>(message: S) -> (r: Self)
        ensures
            r matches WorkflowError::OwnershipError { message: m } && m@ == message.text_view(),
    {
        WorkflowError::OwnershipError { message: message.into_text() }
    }
}

impl From<serde_json::Error> for WorkflowError {
    fn from(source: serde_json::Error) -> (r: Self) {
        WorkflowError::SerializationError { source }
    }
}

impl vstd::std_specs::convert::FromSpecImpl<serde_json::Error> for WorkflowError {
    open spec fn obeys_from_spec() -> bool {
        true
    }

    open spec fn from_spec(v: serde_json::Error) -> WorkflowError {
        WorkflowError::SerializationError { source: v }
    }
}

impl From<crate::agents_traits::error::AgentError> for WorkflowError {
    fn from(source: crate::agents_traits::error::AgentError) -> (r: Self) {
        WorkflowError::AgentError { source }
    }
}

impl vstd::std_specs::convert::FromSpecImpl<crate::agents_traits::error::AgentError> for WorkflowError {
    open spec fn obeys_from_spec() -> bool {
        true
    }

    open spec fn from_spec(v: crate::agents_traits::error::AgentError) -> WorkflowError {
        WorkflowError::AgentError { source: v }
    }
}

} // verus!

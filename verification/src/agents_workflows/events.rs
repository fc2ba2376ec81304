//! Events emitted during workflow execution.
use vstd::prelude::*;
use crate::external::{Timestamp, copy_value, fresh_uuid, utc_now};

verus! {

/// State operations for event tracking
#[derive(Debug, Clone, Copy, PartialEq, Eq, Structural)]
pub enum StateOperation {
    Read,
    Write,
    Delete,
    Clear,
}

/// Types of workflow events
#[derive(Debug)]
pub enum WorkflowEventKind {
    /// Workflow execution started
    WorkflowStarted { workflow_id: String, run_id: String },
    /// Workflow execution completed successfully
    WorkflowCompleted { workflow_id: String, run_id: String },
    /// Workflow execution failed
    WorkflowFailed { workflow_id: String, run_id: String, error: String },
    /// Executor started processing a message
    ExecutorInvoked { executor_id: String, message_type: String },
    /// Executor completed processing
    ExecutorCompleted { executor_id: String, success: bool },
    /// Executor failed
    ExecutorFailed { executor_id: String, error: String },
    /// Workflow output produced
    WorkflowOutput { executor_id: String, output: serde_json::Value },
    /// State update occurred
    StateUpdate { scope: String, key: String, operation: StateOperation },
    /// External request needed
    RequestInfo { request_id: String, request_type: String, data: serde_json::Value },
    /// Request to halt execution
    RequestHalt { reason: Option<String> },
    /// Super step started
    SuperStepStarted { step_id: String },
    /// Super step completed
    SuperStepCompleted { step_id: String, message_count: usize },
    /// Warning occurred
    WorkflowWarning { message: String },
    /// Subworkflow warning
    SubworkflowWarning { subworkflow_id: String, message: String },
    /// Subworkflow error
    SubworkflowError { subworkflow_id: String, error: String },
}

/// Events emitted during workflow execution
#[derive(Debug)]
pub struct WorkflowEvent {
    /// Unique identifier for this event
    pub id: uuid::Uuid,
    /// When the event occurred
    pub timestamp: Timestamp,
    /// The kind of event
    pub kind: WorkflowEventKind,
    /// Optional metadata
    pub metadata: Option<serde_json::Value>,
}

impl WorkflowEvent {
    /// A new event of kind `kind`, with a fresh id and the current time.
    pub fn new(kind: WorkflowEventKind) -> (r: Self)
        ensures
            r.kind == kind,
            r.metadata is None,
    {
        WorkflowEvent { id: fresh_uuid(), timestamp: utc_now(), kind, metadata: None }
    }

    pub fn with_metadata(self, metadata: serde_json::Value) -> (r: Self)
        ensures
            r.id == self.id,
            r.timestamp == self.timestamp,
            r.kind == self.kind,
            r.metadata == Some(metadata),
    {
        let mut s = self;
        s.metadata = Some(metadata);
        s
    }
}

fn copy_opt_value(v: &Option<serde_json::Value>) -> (r: Option<serde_json::Value>)
    ensures
        r == *v,
{
    match v {
        Some(x) => Some(copy_value(x)),
        None => None,
    }
}

impl Clone for WorkflowEventKind {
    fn clone(&self) -> (r: Self)
        ensures
            r == *self,
    {
        match self {
            WorkflowEventKind::WorkflowStarted { workflow_id, run_id } => WorkflowEventKind::WorkflowStarted {
                workflow_id: workflow_id.clone(),
                run_id: run_id.clone(),
            },
            WorkflowEventKind::WorkflowCompleted { workflow_id, run_id } => WorkflowEventKind::WorkflowCompleted {
                workflow_id: workflow_id.clone(),
                run_id: run_id.clone(),
            },
            WorkflowEventKind::WorkflowFailed { workflow_id, run_id, error } => WorkflowEventKind::WorkflowFailed {
                workflow_id: workflow_id.clone(),
                run_id: run_id.clone(),
                error: error.clone(),
            },
            WorkflowEventKind::ExecutorInvoked { executor_id, message_type } => WorkflowEventKind::ExecutorInvoked {
                executor_id: executor_id.clone(),
                message_type: message_type.clone(),
            },
            WorkflowEventKind::ExecutorCompleted { executor_id, success } => WorkflowEventKind::ExecutorCompleted {
                executor_id: executor_id.clone(),
                success: *success,
            },
            WorkflowEventKind::ExecutorFailed { executor_id, error } => WorkflowEventKind::ExecutorFailed {
                executor_id: executor_id.clone(),
                error: error.clone(),
            },
            WorkflowEventKind::WorkflowOutput { executor_id, output } => WorkflowEventKind::WorkflowOutput {
                executor_id: executor_id.clone(),
                output: copy_value(output),
            },
            WorkflowEventKind::StateUpdate { scope, key, operation } => WorkflowEventKind::StateUpdate {
                scope: scope.clone(),
                key: key.clone(),
                operation: *operation,
            },
            WorkflowEventKind::RequestInfo { request_id, request_type, data } => WorkflowEventKind::RequestInfo {
                request_id: request_id.clone(),
                request_type: request_type.clone(),
                data: copy_value(data),
            },
            WorkflowEventKind::RequestHalt { reason } => WorkflowEventKind::RequestHalt {
                reason: match reason {
                    Some(x) => Some(x.clone()),
                    None => None,
                },
            },
            WorkflowEventKind::SuperStepStarted { step_id } => WorkflowEventKind::SuperStepStarted {
                step_id: step_id.clone(),
            },
            WorkflowEventKind::SuperStepCompleted { step_id, message_count } => WorkflowEventKind::SuperStepCompleted {
                step_id: step_id.clone(),
                message_count: *message_count,
            },
            WorkflowEventKind::WorkflowWarning { message } => WorkflowEventKind::WorkflowWarning {
                message: message.clone(),
            },
            WorkflowEventKind::SubworkflowWarning { subworkflow_id, message } => WorkflowEventKind::SubworkflowWarning {
                subworkflow_id: subworkflow_id.clone(),
                message: message.clone(),
            },
            WorkflowEventKind::SubworkflowError { subworkflow_id, error } => WorkflowEventKind::SubworkflowError {
                subworkflow_id: subworkflow_id.clone(),
                error: error.clone(),
            },
        }
    }
}

impl Clone for WorkflowEvent {
    fn clone(&self) -> (r: Self)
        ensures
            r == *self,
    {
        WorkflowEvent {
            id: self.id,
            timestamp: self.timestamp,
            kind: self.kind.clone(),
            metadata: copy_opt_value(&self.metadata),
        }
    }
}

} // verus!

//! Run statuses and super-step information.
use vstd::prelude::*;

verus! {

/// Status of a workflow run
#[derive(Debug, Clone, Copy, PartialEq, Eq, Structural)]
pub enum RunStatus {
    /// Run is currently executing
    Running,
    /// Run completed successfully
    Completed,
    /// Run failed with an error
    Failed,
    /// Run was cancelled
    Cancelled,
    /// Run is paused waiting for external input
    WaitingForInput,
    /// Run has been halted
    Halted,
}

impl RunStatus {
    /// Check if the run is in a terminal state
    pub fn is_terminal(&self) -> (r: bool)
        ensures
            r == (*self == RunStatus::Completed || *self == RunStatus::Failed || *self == RunStatus::Cancelled),
    {
        match self {
            RunStatus::Completed | RunStatus::Failed | RunStatus::Cancelled => true,
            _ => false,
        }
    }

    /// Check if the run is still active
    pub fn is_active(&self) -> (r: bool)
        ensures
            r == (*self == RunStatus::Running || *self == RunStatus::WaitingForInput),
    {
        match self {
            RunStatus::Running | RunStatus::WaitingForInput => true,
            _ => false,
        }
    }

    /// The name of the status, as its `Display` writes it.
    pub fn to_string(&self) -> (r: String)
        ensures
            r@ == status_text(*self),
    {
        match self {
            RunStatus::Running => "Running".to_owned(),
            RunStatus::Completed => "Completed".to_owned(),
            RunStatus::Failed => "Failed".to_owned(),
            RunStatus::Cancelled => "Cancelled".to_owned(),
            RunStatus::WaitingForInput => "Waiting for Input".to_owned(),
            RunStatus::Halted => "Halted".to_owned(),
        }
    }
}

/// The display text of a status.
pub open spec fn status_text(s: RunStatus) -> Seq<char> {
    match s {
        RunStatus::Running => "Running"@,
        RunStatus::Completed => "Completed"@,
        RunStatus::Failed => "Failed"@,
        RunStatus::Cancelled => "Cancelled"@,
        RunStatus::WaitingForInput => "Waiting for Input"@,
        RunStatus::Halted => "Halted"@,
    }
}

/// A run is never both finished and still active.
pub proof fn law_terminal_runs_are_inactive(s: RunStatus)
    ensures
        !((s == RunStatus::Completed || s == RunStatus::Failed || s == RunStatus::Cancelled) && (s
            == RunStatus::Running || s == RunStatus::WaitingForInput)),
{
}

/// Information about a super step in execution
#[derive(Debug)]
pub struct SuperStepInfo {
    pub step_id: String,
    pub message_count: usize,
    pub executor_ids: Vec<String>,
    pub duration: Option<std::time::Duration>,
}

impl SuperStepInfo {
    pub fn new(step_id: String) -> (r: Self)
        ensures
            r.step_id == step_id,
            r.message_count == 0,
            r.executor_ids@.len() == 0,
            r.duration is None,
    {
        SuperStepInfo { step_id, message_count: 0, executor_ids: Vec::new(), duration: None }
    }

    pub fn with_message_count(self, count: usize) -> (r: Self)
        ensures
            r.step_id == self.step_id,
            r.message_count == count,
            r.executor_ids == self.executor_ids,
            r.duration == self.duration,
    {
        let mut s = self;
        s.message_count = count;
        s
    }

    pub fn with_executors(self, executor_ids: Vec<String>) -> (r: Self)
        ensures
            r.step_id == self.step_id,
            r.message_count == self.message_count,
            r.executor_ids == executor_ids,
            r.duration == self.duration,
    {
        let mut s = self;
        s.executor_ids = executor_ids;
        s
    }

    pub fn with_duration(self, duration: std::time::Duration) -> (r: Self)
        ensures
            r.step_id == self.step_id,
            r.message_count == self.message_count,
            r.executor_ids == self.executor_ids,
            r.duration == Some(duration),
    {
        let mut s = self;
        s.duration = Some(duration);
        s
    }
}

} // verus!

//! Lifecycle status of managed workflow runs.

use vstd::prelude::*;

verus! {

/// The lifecycle status of a code-mode cell.
#[derive(Clone, Copy, Debug, PartialEq, Eq, Structural)]
pub enum CodeCellStatus {
    Running,
    Completed,
    Failed,
    Terminated,
}

/// The lifecycle status of a managed workflow run.
#[derive(Clone, Copy, Debug, PartialEq, Eq, Structural)]
pub enum WorkflowRunStatus {
    Running,
    Completed,
    Failed,
    Terminated,
}

/// The run status that mirrors a cell status.
pub open spec fn run_status_of(status: CodeCellStatus) -> WorkflowRunStatus {
    match status {
        CodeCellStatus::Running => WorkflowRunStatus::Running,
        CodeCellStatus::Completed => WorkflowRunStatus::Completed,
        CodeCellStatus::Failed => WorkflowRunStatus::Failed,
        CodeCellStatus::Terminated => WorkflowRunStatus::Terminated,
    }
}

/// The snake-case name of a status, as it is shown and persisted.
pub open spec fn status_name(status: WorkflowRunStatus) -> Seq<char> {
    match status {
        WorkflowRunStatus::Running => "running"@,
        WorkflowRunStatus::Completed => "completed"@,
        WorkflowRunStatus::Failed => "failed"@,
        WorkflowRunStatus::Terminated => "terminated"@,
    }
}

impl WorkflowRunStatus {
    /// Every status but `Running` is final.
    pub fn is_terminal(self) -> (r: bool)
        ensures
            r == (self != WorkflowRunStatus::Running),
    {
        !matches!(self, WorkflowRunStatus::Running)
    }

    pub fn as_str(self) -> (r: &'static str)
        ensures
            r@ == status_name(self),
    {
        match self {
            WorkflowRunStatus::Running => "running",
            WorkflowRunStatus::Completed => "completed",
            WorkflowRunStatus::Failed => "failed",
            WorkflowRunStatus::Terminated => "terminated",
        }
    }

    /// The run status that mirrors a cell status.
    pub fn from_cell_status(status: CodeCellStatus) -> (r: WorkflowRunStatus)
        ensures
            r == run_status_of(status),
    {
        match status {
            CodeCellStatus::Running => WorkflowRunStatus::Running,
            CodeCellStatus::Completed => WorkflowRunStatus::Completed,
            CodeCellStatus::Failed => WorkflowRunStatus::Failed,
            CodeCellStatus::Terminated => WorkflowRunStatus::Terminated,
        }
    }
}

impl From<CodeCellStatus> for WorkflowRunStatus {
    fn from(status: CodeCellStatus) -> (r: WorkflowRunStatus) {
        WorkflowRunStatus::from_cell_status(status)
    }
}

impl vstd::std_specs::convert::FromSpecImpl<CodeCellStatus> for WorkflowRunStatus {
    open spec fn obeys_from_spec() -> bool {
        true
    }

    open spec fn from_spec(status: CodeCellStatus) -> WorkflowRunStatus {
        run_status_of(status)
    }
}

} // verus!

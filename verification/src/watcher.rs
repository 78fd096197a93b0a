//! The completion watcher of a running workflow cell, as a state machine: the
//! caller performs each action (a registry lookup, a wait on the cell, the
//! finish of the run) and hands back what it observed.

use vstd::prelude::*;

use crate::handlers::MAX_WORKFLOW_YIELD_TIME_MS;
use crate::status::CodeCellStatus;

verus! {

/// How long the watcher lets a fresh cell run before it first looks at it.
pub const WATCH_START_DELAY_MS: u64 = 100;

/// What the caller of the watcher observed after its last action.
pub enum WatchEvent {
    /// The registry no longer holds a wait lock for the cell.
    EntryMissing,
    /// The wait lock is held and the run already has a final response.
    AlreadyFinished,
    /// The wait lock is held and the run has no final response yet.
    StillRunning,
    /// A wait on the cell answered with a response of this status; `live_cell`
    /// tells whether the cell was still live in the runtime.
    Waited { status: CodeCellStatus, live_cell: bool },
    /// The wait on the cell failed with this error.
    WaitFailed { error: String },
}

/// What the watcher asks its caller to do next.
pub enum WatchAction {
    /// Look the cell up in the registry, take its wait lock, and report
    /// whether the run already ended.
    CheckRegistry,
    /// Wait on the cell for up to this long.
    WaitOnCell { yield_time_ms: u64 },
    /// Finish the run with the response of the last wait, then stop.
    Finish { live_cell: bool },
    /// Finish the live run with a result that carries this error, then stop.
    FinishWithError { error_text: String },
    /// Stop watching.
    Stop,
}

/// The spec view of an action: the error text as characters.
pub enum WatchStep {
    CheckRegistry,
    WaitOnCell { yield_time_ms: u64 },
    Finish { live_cell: bool },
    FinishWithError { error_text: Seq<char> },
    Stop,
}

impl View for WatchAction {
    type V = WatchStep;

    open spec fn view(&self) -> WatchStep {
        match self {
            WatchAction::CheckRegistry => WatchStep::CheckRegistry,
            WatchAction::WaitOnCell { yield_time_ms } => WatchStep::WaitOnCell {
                yield_time_ms: *yield_time_ms,
            },
            WatchAction::Finish { live_cell } => WatchStep::Finish { live_cell: *live_cell },
            WatchAction::FinishWithError { error_text } => WatchStep::FinishWithError {
                error_text: error_text@,
            },
            WatchAction::Stop => WatchStep::Stop,
        }
    }
}

/// The text of the failed result that ends a run whose watcher could not wait.
pub open spec fn watcher_failure(error: Seq<char>) -> Seq<char> {
    "workflow completion watcher failed: "@ + error
}

/// The watcher's next step after an event: a missing entry or a run that
/// already ended stops it; a pending run is waited on for the longest yield;
/// a still-running cell sends it back to the registry; a final response
/// finishes the run; a failed wait finishes the run with the error.
pub open spec fn next_watch_step(event: WatchEvent) -> WatchStep {
    match event {
        WatchEvent::EntryMissing => WatchStep::Stop,
        WatchEvent::AlreadyFinished => WatchStep::Stop,
        WatchEvent::StillRunning => WatchStep::WaitOnCell {
            yield_time_ms: MAX_WORKFLOW_YIELD_TIME_MS,
        },
        WatchEvent::Waited { status, live_cell } => if status == CodeCellStatus::Running {
            WatchStep::CheckRegistry
        } else {
            WatchStep::Finish { live_cell }
        },
        WatchEvent::WaitFailed { error } => WatchStep::FinishWithError {
            error_text: watcher_failure(error@),
        },
    }
}

/// The first step of a watcher: look at the registry.
pub fn watch_start() -> (r: WatchAction)
    ensures
        r@ == WatchStep::CheckRegistry,
{
    WatchAction::CheckRegistry
}

/// The error text of a watcher whose wait failed.
pub fn watcher_failure_text(error: &str) -> (r: String)
    ensures
        r@ == watcher_failure(error@),
{
    let mut text = String::from_str("workflow completion watcher failed: ");
    text.append(error);
    text
}

/// The watcher's next action after `event`.
pub fn watch_step(event: WatchEvent) -> (r: WatchAction)
    ensures
        r@ == next_watch_step(event),
{
    match event {
        WatchEvent::EntryMissing => WatchAction::Stop,
        WatchEvent::AlreadyFinished => WatchAction::Stop,
        WatchEvent::StillRunning => WatchAction::WaitOnCell {
            yield_time_ms: MAX_WORKFLOW_YIELD_TIME_MS,
        },
        WatchEvent::Waited { status, live_cell } => match status {
            CodeCellStatus::Running => WatchAction::CheckRegistry,
            _ => WatchAction::Finish { live_cell },
        },
        WatchEvent::WaitFailed { error } => WatchAction::FinishWithError {
            error_text: watcher_failure_text(error.as_str()),
        },
    }
}

} // verus!

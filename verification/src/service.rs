//! The registry of managed workflow runs in a session: their lifecycle, the
//! agents each run's cell owns, and the wait locks that serialize waiting on a
//! cell. Times are milliseconds on one monotonic clock.

use vstd::prelude::*;

use crate::json::{json_quote, json_string_literal};
use crate::status::{run_status_of, status_name, CodeCellStatus, WorkflowRunStatus};

verus! {

pub const DEFAULT_WORKFLOW_LIST_LIMIT: usize = 20;

pub const MAX_WORKFLOW_LIST_LIMIT: usize = 50;

pub const MAX_RETAINED_WORKFLOW_RUNS: usize = 64;

pub const MAX_PENDING_WORKFLOW_CELLS: usize = 64;

/// What a persisted run line starts with in a tool output.
pub const WORKFLOW_RUN_MARKER: &'static str = "codex_workflow_run_v1=";

/// One managed run. `terminal_response` is the runtime response that ended it.
pub struct WorkflowRun<R> {
    pub id: String,
    pub name: String,
    pub cell_id: String,
    pub status: WorkflowRunStatus,
    pub origin_sub_id: String,
    pub started_at_ms: u64,
    pub terminal_elapsed_ms: Option<u64>,
    pub terminal_response: Option<R>,
}

/// What the model is told about a run.
#[derive(Clone, Debug, PartialEq, Eq)]
pub struct WorkflowRunSummary {
    pub id: String,
    pub name: String,
    pub cell_id: String,
    pub status: WorkflowRunStatus,
    pub elapsed_ms: u64,
}

/// The persisted form of a run.
#[derive(Clone, Debug, PartialEq, Eq)]
pub struct PersistedWorkflowRun {
    pub id: String,
    pub name: String,
    pub cell_id: String,
    pub status: WorkflowRunStatus,
}

/// What the tool handlers need to act on a run.
#[derive(Clone, Debug, PartialEq, Eq)]
pub struct WorkflowRunHandle {
    pub cell_id: String,
    pub status: WorkflowRunStatus,
    pub origin_sub_id: String,
}

#[derive(Clone, Copy, Debug, PartialEq, Eq, Structural)]
pub enum WorkflowAgentVersion {
    V1,
    V2,
}

/// A subagent that a workflow cell spawned and must stop when it ends.
#[derive(Clone, Debug, PartialEq, Eq)]
pub struct WorkflowOwnedAgent {
    pub thread_id: String,
    pub version: WorkflowAgentVersion,
}

/// The agents a cell owns, in the order they were first tracked.
pub struct CellAgents {
    pub cell_id: String,
    pub agents: Vec<WorkflowOwnedAgent>,
}

/// The lock that serializes waits on a cell.
pub struct CellWaitLock<L> {
    pub cell_id: String,
    pub lock: L,
}

/// The registry. Runs are kept oldest first, at most
/// `MAX_RETAINED_WORKFLOW_RUNS` of them; cells with owned agents are kept in
/// the order they were first tracked, at most `MAX_PENDING_WORKFLOW_CELLS`.
pub struct WorkflowService<R, L> {
    runs: Vec<WorkflowRun<R>>,
    owned_agents: Vec<CellAgents>,
    wait_locks: Vec<CellWaitLock<L>>,
}

/// Milliseconds from `started` to `now`, zero if the clock reads earlier.
pub open spec fn elapsed_between(started: u64, now: u64) -> u64 {
    if now >= started {
        (now - started) as u64
    } else {
        0
    }
}

/// The elapsed time of a run at `now`: frozen once the run ended.
pub open spec fn run_elapsed<R>(run: WorkflowRun<R>, now: u64) -> u64 {
    match run.terminal_elapsed_ms {
        Some(e) => e,
        None => elapsed_between(run.started_at_ms, now),
    }
}

/// `summary` describes `run` at `now`.
pub open spec fn summarizes<R>(summary: WorkflowRunSummary, run: WorkflowRun<R>, now: u64) -> bool {
    &&& summary.id@ == run.id@
    &&& summary.name@ == run.name@
    &&& summary.cell_id@ == run.cell_id@
    &&& summary.status == run.status
    &&& summary.elapsed_ms == run_elapsed(run, now)
}

/// `handle` is the handle of `run`.
pub open spec fn handles<R>(handle: WorkflowRunHandle, run: WorkflowRun<R>) -> bool {
    &&& handle.cell_id@ == run.cell_id@
    &&& handle.status == run.status
    &&& handle.origin_sub_id@ == run.origin_sub_id@
}

/// The first run, at or after `i`, of cell `cell`.
pub open spec fn run_of_cell_from<R>(runs: Seq<WorkflowRun<R>>, cell: Seq<char>, i: int) -> Option<int>
    decreases runs.len() - i,
{
    if i < 0 || i >= runs.len() {
        None
    } else if runs[i].cell_id@ == cell {
        Some(i)
    } else {
        run_of_cell_from(runs, cell, i + 1)
    }
}

/// The first run of cell `cell`.
pub open spec fn run_of_cell<R>(runs: Seq<WorkflowRun<R>>, cell: Seq<char>) -> Option<int> {
    run_of_cell_from(runs, cell, 0)
}

/// The first run, at or after `i`, with identifier `id`.
pub open spec fn run_with_id_from<R>(runs: Seq<WorkflowRun<R>>, id: Seq<char>, i: int) -> Option<int>
    decreases runs.len() - i,
{
    if i < 0 || i >= runs.len() {
        None
    } else if runs[i].id@ == id {
        Some(i)
    } else {
        run_with_id_from(runs, id, i + 1)
    }
}

/// The first run with identifier `id`.
pub open spec fn run_with_id<R>(runs: Seq<WorkflowRun<R>>, id: Seq<char>) -> Option<int> {
    run_with_id_from(runs, id, 0)
}

/// The entry of cell `cell` among the owned-agent entries, from `i`.
pub open spec fn agents_entry_from(entries: Seq<CellAgents>, cell: Seq<char>, i: int) -> Option<int>
    decreases entries.len() - i,
{
    if i < 0 || i >= entries.len() {
        None
    } else if entries[i].cell_id@ == cell {
        Some(i)
    } else {
        agents_entry_from(entries, cell, i + 1)
    }
}

pub open spec fn agents_entry(entries: Seq<CellAgents>, cell: Seq<char>) -> Option<int> {
    agents_entry_from(entries, cell, 0)
}

/// The entry of cell `cell` among the wait locks, from `i`.
pub open spec fn lock_entry_from<L>(entries: Seq<CellWaitLock<L>>, cell: Seq<char>, i: int) -> Option<
    int,
>
    decreases entries.len() - i,
{
    if i < 0 || i >= entries.len() {
        None
    } else if entries[i].cell_id@ == cell {
        Some(i)
    } else {
        lock_entry_from(entries, cell, i + 1)
    }
}

pub open spec fn lock_entry<L>(entries: Seq<CellWaitLock<L>>, cell: Seq<char>) -> Option<int> {
    lock_entry_from(entries, cell, 0)
}

/// The owned-agent entries without the one of `cell`.
pub open spec fn without_agents_entry(entries: Seq<CellAgents>, cell: Seq<char>) -> Seq<CellAgents> {
    match agents_entry(entries, cell) {
        Some(k) => entries.remove(k),
        None => entries,
    }
}

/// The wait locks without the one of `cell`.
pub open spec fn without_lock_entry<L>(entries: Seq<CellWaitLock<L>>, cell: Seq<char>) -> Seq<
    CellWaitLock<L>,
> {
    match lock_entry(entries, cell) {
        Some(k) => entries.remove(k),
        None => entries,
    }
}

pub proof fn lemma_run_of_cell_from<R>(runs: Seq<WorkflowRun<R>>, cell: Seq<char>, i: int)
    requires
        0 <= i,
    ensures
        run_of_cell_from(runs, cell, i) matches Some(k) ==> i <= k < runs.len() && runs[k].cell_id@
            == cell,
        run_of_cell_from(runs, cell, i) is None ==> forall|m: int|
            i <= m < runs.len() ==> (#[trigger] runs[m]).cell_id@ != cell,
    decreases runs.len() - i,
{
    if i < runs.len() && runs[i].cell_id@ != cell {
        lemma_run_of_cell_from(runs, cell, i + 1);
    }
}

pub proof fn lemma_run_with_id_from<R>(runs: Seq<WorkflowRun<R>>, id: Seq<char>, i: int)
    requires
        0 <= i,
    ensures
        run_with_id_from(runs, id, i) matches Some(k) ==> i <= k < runs.len() && runs[k].id@ == id,
        run_with_id_from(runs, id, i) is None ==> forall|m: int|
            i <= m < runs.len() ==> (#[trigger] runs[m]).id@ != id,
    decreases runs.len() - i,
{
    if i < runs.len() && runs[i].id@ != id {
        lemma_run_with_id_from(runs, id, i + 1);
    }
}

pub proof fn lemma_agents_entry_from(entries: Seq<CellAgents>, cell: Seq<char>, i: int)
    requires
        0 <= i,
    ensures
        agents_entry_from(entries, cell, i) matches Some(k) ==> i <= k < entries.len()
            && entries[k].cell_id@ == cell,
        agents_entry_from(entries, cell, i) is None ==> forall|m: int|
            i <= m < entries.len() ==> (#[trigger] entries[m]).cell_id@ != cell,
    decreases entries.len() - i,
{
    if i < entries.len() && entries[i].cell_id@ != cell {
        lemma_agents_entry_from(entries, cell, i + 1);
    }
}

pub proof fn lemma_lock_entry_from<L>(entries: Seq<CellWaitLock<L>>, cell: Seq<char>, i: int)
    requires
        0 <= i,
    ensures
        lock_entry_from(entries, cell, i) matches Some(k) ==> i <= k < entries.len()
            && entries[k].cell_id@ == cell,
        lock_entry_from(entries, cell, i) is None ==> forall|m: int|
            i <= m < entries.len() ==> (#[trigger] entries[m]).cell_id@ != cell,
    decreases entries.len() - i,
{
    if i < entries.len() && entries[i].cell_id@ != cell {
        lemma_lock_entry_from(entries, cell, i + 1);
    }
}

/// Every cell has at most one owned-agent entry.
pub open spec fn distinct_agent_cells(entries: Seq<CellAgents>) -> bool {
    forall|i: int, j: int|
        0 <= i < j < entries.len() ==> (#[trigger] entries[i]).cell_id@ != (
        #[trigger] entries[j]).cell_id@
}

/// Every cell has at most one wait lock.
pub open spec fn distinct_lock_cells<L>(entries: Seq<CellWaitLock<L>>) -> bool {
    forall|i: int, j: int|
        0 <= i < j < entries.len() ==> (#[trigger] entries[i]).cell_id@ != (
        #[trigger] entries[j]).cell_id@
}

/// The hyphenated lower-case text of a UUID: 36 characters, hyphens at
/// positions 8, 13, 18 and 23, lower-case hexadecimal digits elsewhere.
pub open spec fn is_uuid_text(t: Seq<char>) -> bool {
    &&& t.len() == 36
    &&& forall|i: int|
        0 <= i < 36 ==> if i == 8 || i == 13 || i == 18 || i == 23 {
            #[trigger] t[i] == '-'
        } else {
            ('0' <= t[i] && t[i] <= '9') || ('a' <= t[i] && t[i] <= 'f')
        }
}

/// The identifier text of a new run: `workflow-` and a UUID.
pub open spec fn is_run_id(id: Seq<char>) -> bool {
    id.len() == 45 && id.subrange(0, 9) == "workflow-"@ && is_uuid_text(id.subrange(9, 45))
}

/// Calls `uuid::Uuid::now_v7` and writes the UUID with `Display`, which gives
/// the 36-character hyphenated lower-case form. Which UUID comes back depends
/// on the clock and on chance; only its form is stated.
#[verifier::external_body]
fn fresh_uuid_text() -> (r: String)
    ensures
        is_uuid_text(r@),
{
    uuid::Uuid::now_v7().to_string()
}

/// The handle of a run.
fn handle<R>(run: &WorkflowRun<R>) -> (r: WorkflowRunHandle)
    ensures
        handles(r, *run),
{
    WorkflowRunHandle {
        cell_id: run.cell_id.clone(),
        status: run.status,
        origin_sub_id: run.origin_sub_id.clone(),
    }
}

/// The summary of a run at `now_ms`.
fn summary<R>(run: &WorkflowRun<R>, now_ms: u64) -> (r: WorkflowRunSummary)
    ensures
        summarizes(r, *run, now_ms),
{
    let elapsed_ms = match run.terminal_elapsed_ms {
        Some(elapsed) => elapsed,
        None => now_ms.saturating_sub(run.started_at_ms),
    };
    WorkflowRunSummary {
        id: run.id.clone(),
        name: run.name.clone(),
        cell_id: run.cell_id.clone(),
        status: run.status,
        elapsed_ms,
    }
}

/// The persistence line of a run: the marker and the run as a JSON object.
pub open spec fn persisted_line(id: Seq<char>, name: Seq<char>, cell_id: Seq<char>, status: WorkflowRunStatus) -> Seq<char> {
    WORKFLOW_RUN_MARKER@ + persisted_json(id, name, cell_id, status)
}

/// A persisted run as JSON, fields in declaration order.
pub open spec fn persisted_json(id: Seq<char>, name: Seq<char>, cell_id: Seq<char>, status: WorkflowRunStatus) -> Seq<char> {
    "{\"id\":"@ + json_quote(id) + ",\"name\":"@ + json_quote(name) + ",\"cell_id\":"@ + json_quote(
        cell_id,
    ) + ",\"status\":"@ + json_quote(status_name(status)) + "}"@
}

/// The position of cell `cell` among the owned-agent entries.
fn find_agents_entry(entries: &Vec<CellAgents>, cell: &String) -> (r: Option<usize>)
    ensures
        match r {
            Some(k) => agents_entry(entries@, cell@) == Some(k as int),
            None => agents_entry(entries@, cell@) is None,
        },
{
    let mut i: usize = 0;
    while i < entries.len()
        invariant
            0 <= i <= entries@.len(),
            agents_entry_from(entries@, cell@, i as int) == agents_entry(entries@, cell@),
        decreases entries@.len() - i,
    {
        if entries[i].cell_id == *cell {
            return Some(i);
        }
        i = i + 1;
    }
    None
}

/// The position of cell `cell` among the wait locks.
fn find_lock_entry<L>(entries: &Vec<CellWaitLock<L>>, cell: &String) -> (r: Option<usize>)
    ensures
        match r {
            Some(k) => lock_entry(entries@, cell@) == Some(k as int),
            None => lock_entry(entries@, cell@) is None,
        },
{
    let mut i: usize = 0;
    while i < entries.len()
        invariant
            0 <= i <= entries@.len(),
            lock_entry_from(entries@, cell@, i as int) == lock_entry(entries@, cell@),
        decreases entries@.len() - i,
    {
        if entries[i].cell_id == *cell {
            return Some(i);
        }
        i = i + 1;
    }
    None
}

/// The position of the first run of cell `cell`.
fn find_run_of_cell<R>(runs: &Vec<WorkflowRun<R>>, cell: &String) -> (r: Option<usize>)
    ensures
        match r {
            Some(k) => run_of_cell(runs@, cell@) == Some(k as int),
            None => run_of_cell(runs@, cell@) is None,
        },
{
    let mut i: usize = 0;
    while i < runs.len()
        invariant
            0 <= i <= runs@.len(),
            run_of_cell_from(runs@, cell@, i as int) == run_of_cell(runs@, cell@),
        decreases runs@.len() - i,
    {
        if runs[i].cell_id == *cell {
            return Some(i);
        }
        i = i + 1;
    }
    None
}

/// The position of the first run with identifier `id`.
fn find_run_with_id<R>(runs: &Vec<WorkflowRun<R>>, id: &String) -> (r: Option<usize>)
    ensures
        match r {
            Some(k) => run_with_id(runs@, id@) == Some(k as int),
            None => run_with_id(runs@, id@) is None,
        },
{
    let mut i: usize = 0;
    while i < runs.len()
        invariant
            0 <= i <= runs@.len(),
            run_with_id_from(runs@, id@, i as int) == run_with_id(runs@, id@),
        decreases runs@.len() - i,
    {
        if runs[i].id == *id {
            return Some(i);
        }
        i = i + 1;
    }
    None
}

pub proof fn lemma_remove_keeps_distinct_agents(entries: Seq<CellAgents>, k: int)
    requires
        distinct_agent_cells(entries),
        0 <= k < entries.len(),
    ensures
        distinct_agent_cells(entries.remove(k)),
{
    let r = entries.remove(k);
    assert forall|i: int, j: int| 0 <= i < j < r.len() implies (#[trigger] r[i]).cell_id@ != (
    #[trigger] r[j]).cell_id@ by {
        let oi = if i < k { i } else { i + 1 };
        let oj = if j < k { j } else { j + 1 };
        assert(r[i] == entries[oi] && r[j] == entries[oj]);
    }
}

pub proof fn lemma_remove_keeps_distinct_locks<L>(entries: Seq<CellWaitLock<L>>, k: int)
    requires
        distinct_lock_cells(entries),
        0 <= k < entries.len(),
    ensures
        distinct_lock_cells(entries.remove(k)),
{
    let r = entries.remove(k);
    assert forall|i: int, j: int| 0 <= i < j < r.len() implies (#[trigger] r[i]).cell_id@ != (
    #[trigger] r[j]).cell_id@ by {
        let oi = if i < k { i } else { i + 1 };
        let oj = if j < k { j } else { j + 1 };
        assert(r[i] == entries[oi] && r[j] == entries[oj]);
    }
}

/// Drops the owned-agent entry of `cell`, if any.
fn remove_agents_entry(entries: &mut Vec<CellAgents>, cell: &String)
    requires
        distinct_agent_cells(old(entries)@),
    ensures
        final(entries)@ == without_agents_entry(old(entries)@, cell@),
        distinct_agent_cells(final(entries)@),
        final(entries)@.len() <= old(entries)@.len(),
{
    match find_agents_entry(entries, cell) {
        Some(k) => {
            proof {
                lemma_agents_entry_from(entries@, cell@, 0);
                lemma_remove_keeps_distinct_agents(entries@, k as int);
            }
            entries.remove(k);
        },
        None => {},
    }
}

/// Drops the wait lock of `cell`, if any.
fn remove_lock_entry<L>(entries: &mut Vec<CellWaitLock<L>>, cell: &String)
    requires
        distinct_lock_cells(old(entries)@),
    ensures
        final(entries)@ == without_lock_entry(old(entries)@, cell@),
        distinct_lock_cells(final(entries)@),
{
    match find_lock_entry(entries, cell) {
        Some(k) => {
            proof {
                lemma_lock_entry_from(entries@, cell@, 0);
                lemma_remove_keeps_distinct_locks(entries@, k as int);
            }
            entries.remove(k);
        },
        None => {},
    }
}

/// The runs kept when one more is registered: all of them, or all but the
/// oldest when the registry is full.
pub open spec fn kept_runs<R>(runs: Seq<WorkflowRun<R>>) -> Seq<WorkflowRun<R>> {
    if runs.len() < MAX_RETAINED_WORKFLOW_RUNS {
        runs
    } else {
        runs.drop_first()
    }
}

/// The cell whose run is evicted when one more run is registered.
pub open spec fn evicted_cell<R>(runs: Seq<WorkflowRun<R>>) -> Option<Seq<char>> {
    if runs.len() < MAX_RETAINED_WORKFLOW_RUNS {
        None
    } else {
        Some(runs[0].cell_id@)
    }
}

/// `run` is the run registered with these arguments, under identifier `id`.
pub open spec fn is_new_run<R>(
    run: WorkflowRun<R>,
    id: Seq<char>,
    name: Seq<char>,
    cell_id: Seq<char>,
    status: CodeCellStatus,
    origin_sub_id: Seq<char>,
    started_at_ms: u64,
    now_ms: u64,
    terminal_response: Option<R>,
) -> bool {
    &&& run.id@ == id
    &&& run.name@ == name
    &&& run.cell_id@ == cell_id
    &&& run.status == run_status_of(status)
    &&& run.origin_sub_id@ == origin_sub_id
    &&& run.started_at_ms == started_at_ms
    &&& run.terminal_elapsed_ms == if run_status_of(status) == WorkflowRunStatus::Running {
        None
    } else {
        Some(elapsed_between(started_at_ms, now_ms))
    }
    &&& run.terminal_response == terminal_response
}

/// The run after its cell reported `status` at `now_ms`: the status follows
/// the cell, a run that became final gets its elapsed time frozen once, and a
/// final report's response is kept.
pub open spec fn is_updated_run<R>(
    new_run: WorkflowRun<R>,
    run: WorkflowRun<R>,
    status: CodeCellStatus,
    response: Option<R>,
    now_ms: u64,
) -> bool {
    let st = run_status_of(status);
    &&& new_run.id == run.id
    &&& new_run.name == run.name
    &&& new_run.cell_id == run.cell_id
    &&& new_run.origin_sub_id == run.origin_sub_id
    &&& new_run.started_at_ms == run.started_at_ms
    &&& new_run.status == st
    &&& new_run.terminal_elapsed_ms == if st != WorkflowRunStatus::Running
        && run.terminal_elapsed_ms is None {
        Some(elapsed_between(run.started_at_ms, now_ms))
    } else {
        run.terminal_elapsed_ms
    }
    &&& new_run.terminal_response == if st != WorkflowRunStatus::Running && response is Some {
        response
    } else {
        run.terminal_response
    }
}

/// The owned-agent entries after `agent` is tracked for `cell`: added to the
/// cell's entry unless already there, or in a new last entry, the oldest
/// entry dropped first when the registry is full.
pub open spec fn tracked_entries(
    new_entries: Seq<CellAgents>,
    entries: Seq<CellAgents>,
    cell: Seq<char>,
    agent: WorkflowOwnedAgent,
) -> bool {
    match agents_entry(entries, cell) {
        Some(k) => {
            &&& new_entries.len() == entries.len()
            &&& forall|i: int| 0 <= i < entries.len() && i != k ==> new_entries[i] == entries[i]
            &&& new_entries[k].cell_id == entries[k].cell_id
            &&& new_entries[k].agents@ == if has_agent(entries[k].agents@, agent) {
                entries[k].agents@
            } else {
                entries[k].agents@.push(agent)
            }
        },
        None => {
            let base = if entries.len() >= MAX_PENDING_WORKFLOW_CELLS {
                entries.drop_first()
            } else {
                entries
            };
            &&& new_entries.drop_last() == base
            &&& new_entries.len() == base.len() + 1
            &&& new_entries.last().cell_id@ == cell
            &&& new_entries.last().agents@ == seq![agent]
        },
    }
}

/// Two agent records name the same agent.
pub open spec fn same_agent(a: WorkflowOwnedAgent, b: WorkflowOwnedAgent) -> bool {
    a.thread_id@ == b.thread_id@ && a.version == b.version
}

pub open spec fn has_agent(agents: Seq<WorkflowOwnedAgent>, agent: WorkflowOwnedAgent) -> bool {
    exists|i: int| 0 <= i < agents.len() && same_agent(#[trigger] agents[i], agent)
}

/// The agents other than those of thread `thread_id`, in order.
pub open spec fn without_thread(agents: Seq<WorkflowOwnedAgent>, thread_id: Seq<char>) -> Seq<
    WorkflowOwnedAgent,
>
    decreases agents.len(),
{
    if agents.len() == 0 {
        Seq::empty()
    } else if agents.last().thread_id@ == thread_id {
        without_thread(agents.drop_last(), thread_id)
    } else {
        without_thread(agents.drop_last(), thread_id).push(agents.last())
    }
}

fn same_agent_exec(a: &WorkflowOwnedAgent, b: &WorkflowOwnedAgent) -> (r: bool)
    ensures
        r == same_agent(*a, *b),
{
    a.thread_id == b.thread_id && a.version == b.version
}

fn contains_agent(agents: &Vec<WorkflowOwnedAgent>, agent: &WorkflowOwnedAgent) -> (r: bool)
    ensures
        r == has_agent(agents@, *agent),
{
    let mut i: usize = 0;
    while i < agents.len()
        invariant
            0 <= i <= agents@.len(),
            forall|j: int| 0 <= j < i ==> !same_agent(#[trigger] agents@[j], *agent),
        decreases agents@.len() - i,
    {
        if same_agent_exec(&agents[i], agent) {
            return true;
        }
        i = i + 1;
    }
    false
}

fn agents_without_thread(agents: &Vec<WorkflowOwnedAgent>, thread_id: &String) -> (r: Vec<
    WorkflowOwnedAgent,
>)
    ensures
        r@ == without_thread(agents@, thread_id@),
{
    let mut kept: Vec<WorkflowOwnedAgent> = Vec::new();
    let mut i: usize = 0;
    while i < agents.len()
        invariant
            0 <= i <= agents@.len(),
            kept@ == without_thread(agents@.take(i as int), thread_id@),
        decreases agents@.len() - i,
    {
        proof {
            assert(agents@.take(i + 1).drop_last() =~= agents@.take(i as int));
        }
        if agents[i].thread_id != *thread_id {
            kept.push(
                WorkflowOwnedAgent {
                    thread_id: agents[i].thread_id.clone(),
                    version: agents[i].version,
                },
            );
        }
        i = i + 1;
    }
    assert(agents@.take(agents@.len() as int) =~= agents@);
    kept
}

/// A restored run that was still running is terminated: its cell did not
/// survive.
pub open spec fn restored_status(status: WorkflowRunStatus) -> WorkflowRunStatus {
    if status == WorkflowRunStatus::Running {
        WorkflowRunStatus::Terminated
    } else {
        status
    }
}

pub open spec fn has_record_id(records: Seq<PersistedWorkflowRun>, id: Seq<char>) -> bool {
    exists|j: int| 0 <= j < records.len() && (#[trigger] records[j]).id@ == id
}

/// The records among the first `n`, newest first, that are restored: the
/// first one of each identifier, at most `MAX_RETAINED_WORKFLOW_RUNS`.
pub open spec fn accepted_records(records: Seq<PersistedWorkflowRun>, n: int) -> Seq<
    PersistedWorkflowRun,
>
    decreases n,
{
    if n <= 0 {
        Seq::empty()
    } else {
        let prev = accepted_records(records, n - 1);
        let record = records[n - 1];
        if prev.len() >= MAX_RETAINED_WORKFLOW_RUNS || has_record_id(prev, record.id@) {
            prev
        } else {
            prev.push(record)
        }
    }
}

/// `run` is the run restored from `record`: terminal, with no elapsed time,
/// origin or response.
pub open spec fn is_restored_run<R>(run: WorkflowRun<R>, record: PersistedWorkflowRun) -> bool {
    &&& run.id@ == record.id@
    &&& run.name@ == record.name@
    &&& run.cell_id@ == record.cell_id@
    &&& run.status == restored_status(record.status)
    &&& run.origin_sub_id@ == Seq::<char>::empty()
    &&& run.started_at_ms == 0
    &&& run.terminal_elapsed_ms == Some(0u64)
    &&& run.terminal_response is None
}

fn copy_record(record: &PersistedWorkflowRun) -> (r: PersistedWorkflowRun)
    ensures
        r == *record,
{
    PersistedWorkflowRun {
        id: record.id.clone(),
        name: record.name.clone(),
        cell_id: record.cell_id.clone(),
        status: record.status,
    }
}

fn contains_record_id(records: &Vec<PersistedWorkflowRun>, id: &String) -> (r: bool)
    ensures
        r == has_record_id(records@, id@),
{
    let mut j: usize = 0;
    while j < records.len()
        invariant
            0 <= j <= records@.len(),
            forall|m: int| 0 <= m < j ==> (#[trigger] records@[m]).id@ != id@,
        decreases records@.len() - j,
    {
        if records[j].id == *id {
            return true;
        }
        j = j + 1;
    }
    false
}

impl<R, L> WorkflowService<R, L> {
    pub closed spec fn runs(&self) -> Seq<WorkflowRun<R>> {
        self.runs@
    }

    pub closed spec fn agent_entries(&self) -> Seq<CellAgents> {
        self.owned_agents@
    }

    pub closed spec fn lock_entries(&self) -> Seq<CellWaitLock<L>> {
        self.wait_locks@
    }

    /// The registry's bounds hold and no cell has two entries.
    pub open spec fn wf(&self) -> bool {
        &&& self.runs().len() <= MAX_RETAINED_WORKFLOW_RUNS
        &&& self.agent_entries().len() <= MAX_PENDING_WORKFLOW_CELLS
        &&& distinct_agent_cells(self.agent_entries())
        &&& distinct_lock_cells(self.lock_entries())
    }

    /// An empty registry.
    pub fn new() -> (r: Self)
        ensures
            r.wf(),
            r.runs().len() == 0,
            r.agent_entries().len() == 0,
            r.lock_entries().len() == 0,
    {
        WorkflowService { runs: Vec::new(), owned_agents: Vec::new(), wait_locks: Vec::new() }
    }

    /// The registry restored from persisted runs listed newest first: the
    /// first record of each identifier, at most `MAX_RETAINED_WORKFLOW_RUNS`,
    /// oldest first, with no owned agents and no wait locks.
    pub fn from_persisted_runs(records: &Vec<PersistedWorkflowRun>) -> (r: Self)
        ensures
            r.wf(),
            r.agent_entries().len() == 0,
            r.lock_entries().len() == 0,
            r.runs().len() == accepted_records(records@, records@.len() as int).len(),
            forall|i: int|
                0 <= i < r.runs().len() ==> is_restored_run(
                    #[trigger] r.runs()[i],
                    accepted_records(records@, records@.len() as int)[r.runs().len() - 1 - i],
                ),
    {
        let mut accepted: Vec<PersistedWorkflowRun> = Vec::new();
        let mut i: usize = 0;
        while i < records.len()
            invariant
                0 <= i <= records@.len(),
                accepted@ == accepted_records(records@, i as int),
                accepted@.len() <= MAX_RETAINED_WORKFLOW_RUNS,
            decreases records@.len() - i,
        {
            if accepted.len() < MAX_RETAINED_WORKFLOW_RUNS && !contains_record_id(
                &accepted,
                &records[i].id,
            ) {
                accepted.push(copy_record(&records[i]));
            }
            i = i + 1;
        }
        let ghost acc = accepted@;
        let mut runs: Vec<WorkflowRun<R>> = Vec::new();
        let mut k = accepted.len();
        while k > 0
            invariant
                0 <= k <= acc.len(),
                accepted@ == acc,
                runs@.len() == acc.len() - k,
                forall|m: int|
                    0 <= m < runs@.len() ==> is_restored_run(#[trigger] runs@[m], acc[acc.len() - 1 - m]),
            decreases k,
        {
            k = k - 1;
            let record = &accepted[k];
            let status = if record.status == WorkflowRunStatus::Running {
                WorkflowRunStatus::Terminated
            } else {
                record.status
            };
            runs.push(
                WorkflowRun {
                    id: record.id.clone(),
                    name: record.name.clone(),
                    cell_id: record.cell_id.clone(),
                    status,
                    origin_sub_id: String::new(),
                    started_at_ms: 0,
                    terminal_elapsed_ms: Some(0),
                    terminal_response: None,
                },
            );
        }
        WorkflowService { runs, owned_agents: Vec::new(), wait_locks: Vec::new() }
    }

    /// Registers a new run, evicting the oldest one when the registry is
    /// full together with its cell's owned agents and wait lock, and gives the
    /// new run's cell a wait lock unless it has one.
    pub fn register(
        &mut self,
        name: String,
        cell_id: String,
        status: CodeCellStatus,
        origin_sub_id: String,
        started_at_ms: u64,
        now_ms: u64,
        terminal_response: Option<R>,
        wait_lock: L,
    ) -> (r: WorkflowRunSummary)
        requires
            old(self).wf(),
        ensures
            final(self).wf(),
            is_run_id(r.id@),
            final(self).runs().drop_last() == kept_runs(old(self).runs()),
            final(self).runs().len() == kept_runs(old(self).runs()).len() + 1,
            is_new_run(
                final(self).runs().last(),
                r.id@,
                name@,
                cell_id@,
                status,
                origin_sub_id@,
                started_at_ms,
                now_ms,
                terminal_response,
            ),
            summarizes(r, final(self).runs().last(), now_ms),
            final(self).agent_entries() == match evicted_cell(old(self).runs()) {
                Some(cell) => without_agents_entry(old(self).agent_entries(), cell),
                None => old(self).agent_entries(),
            },
            ({
                let base = match evicted_cell(old(self).runs()) {
                    Some(cell) => without_lock_entry(old(self).lock_entries(), cell),
                    None => old(self).lock_entries(),
                };
                final(self).lock_entries() == if lock_entry(base, cell_id@) is Some {
                    base
                } else {
                    base.push(CellWaitLock { cell_id, lock: wait_lock })
                }
            }),
    {
        let run_status = WorkflowRunStatus::from_cell_status(status);
        let terminal_elapsed_ms = if run_status.is_terminal() {
            Some(now_ms.saturating_sub(started_at_ms))
        } else {
            None
        };
        let lock_cell_id = cell_id.clone();
        let mut id = String::from_str("workflow-");
        let uuid = fresh_uuid_text();
        id.append(uuid.as_str());
        proof {
            reveal_strlit("workflow-");
            assert(id@.subrange(0, 9) =~= "workflow-"@);
            assert(id@.subrange(9, 45) =~= uuid@);
        }
        let run = WorkflowRun {
            id,
            name,
            cell_id,
            status: run_status,
            origin_sub_id,
            started_at_ms,
            terminal_elapsed_ms,
            terminal_response,
        };
        let new_summary = summary(&run, now_ms);
        let ghost old_runs = self.runs@;
        if self.runs.len() >= MAX_RETAINED_WORKFLOW_RUNS {
            let evicted = self.runs.remove(0);
            remove_agents_entry(&mut self.owned_agents, &evicted.cell_id);
            remove_lock_entry(&mut self.wait_locks, &evicted.cell_id);
        }
        self.runs.push(run);
        proof {
            assert(self.runs@.len() <= MAX_RETAINED_WORKFLOW_RUNS);
            assert(self.owned_agents@.len() <= MAX_PENDING_WORKFLOW_CELLS);
            assert(self.runs@.drop_last() =~= kept_runs(old_runs));
        }
        match find_lock_entry(&self.wait_locks, &lock_cell_id) {
            Some(_) => {},
            None => {
                proof {
                    lemma_lock_entry_from(self.wait_locks@, lock_cell_id@, 0);
                    let e = self.wait_locks@.push(CellWaitLock { cell_id: lock_cell_id, lock: wait_lock });
                    assert forall|i: int, j: int| 0 <= i < j < e.len() implies (
                    #[trigger] e[i]).cell_id@ != (#[trigger] e[j]).cell_id@ by {
                        if j == e.len() - 1 {
                            assert(e[i] == self.wait_locks@[i]);
                        } else {
                            assert(e[i] == self.wait_locks@[i] && e[j] == self.wait_locks@[j]);
                        }
                    }
                }
                self.wait_locks.push(CellWaitLock { cell_id: lock_cell_id, lock: wait_lock });
            },
        }
        new_summary
    }

    /// Summaries at `now_ms` of the newest runs, newest first, at most
    /// `limit` and never more than `MAX_WORKFLOW_LIST_LIMIT`.
    pub fn list(&self, limit: usize, now_ms: u64) -> (r: Vec<WorkflowRunSummary>)
        ensures
            r@.len() == vstd::math::min(
                vstd::math::min(limit as int, MAX_WORKFLOW_LIST_LIMIT as int),
                self.runs().len() as int,
            ),
            forall|i: int|
                0 <= i < r@.len() ==> summarizes(
                    #[trigger] r@[i],
                    self.runs()[self.runs().len() - 1 - i],
                    now_ms,
                ),
    {
        let cap = if limit < MAX_WORKFLOW_LIST_LIMIT {
            limit
        } else {
            MAX_WORKFLOW_LIST_LIMIT
        };
        let mut out: Vec<WorkflowRunSummary> = Vec::new();
        let n = self.runs.len();
        let mut i: usize = 0;
        while i < cap && i < n
            invariant
                n == self.runs@.len(),
                cap == vstd::math::min(limit as int, MAX_WORKFLOW_LIST_LIMIT as int),
                0 <= i <= n,
                i <= cap,
                out@.len() == i,
                forall|j: int|
                    0 <= j < i ==> summarizes(#[trigger] out@[j], self.runs@[n - 1 - j], now_ms),
            decreases n - i,
        {
            out.push(summary(&self.runs[n - 1 - i], now_ms));
            i = i + 1;
        }
        out
    }

    /// Records a status report of cell `cell_id`, for its first run. Gives
    /// the run's handle when its status changed.
    pub fn update_cell(
        &mut self,
        cell_id: &String,
        status: CodeCellStatus,
        response: Option<R>,
        now_ms: u64,
    ) -> (r: Option<WorkflowRunHandle>)
        requires
            old(self).wf(),
        ensures
            final(self).wf(),
            final(self).agent_entries() == old(self).agent_entries(),
            final(self).lock_entries() == old(self).lock_entries(),
            match run_of_cell(old(self).runs(), cell_id@) {
                None => r is None && final(self).runs() == old(self).runs(),
                Some(k) => {
                    &&& final(self).runs().len() == old(self).runs().len()
                    &&& forall|i: int|
                        0 <= i < old(self).runs().len() && i != k ==> final(self).runs()[i] == old(self).runs()[i]
                    &&& is_updated_run(
                        final(self).runs()[k],
                        old(self).runs()[k],
                        status,
                        response,
                        now_ms,
                    )
                    &&& (r is Some <==> old(self).runs()[k].status != run_status_of(status))
                    &&& (r matches Some(h) ==> handles(h, final(self).runs()[k]))
                },
            },
    {
        let k = match find_run_of_cell(&self.runs, cell_id) {
            Some(k) => k,
            None => return None,
        };
        proof {
            lemma_run_of_cell_from(self.runs@, cell_id@, 0);
        }
        let ghost old_runs = self.runs@;
        let mut run = self.runs.remove(k);
        let previous = run.status;
        run.status = WorkflowRunStatus::from_cell_status(status);
        if run.status.is_terminal() && run.terminal_elapsed_ms.is_none() {
            run.terminal_elapsed_ms = Some(now_ms.saturating_sub(run.started_at_ms));
        }
        if run.status.is_terminal() {
            match response {
                Some(response) => run.terminal_response = Some(response),
                None => {},
            }
        }
        let changed = previous != run.status;
        let result = if changed {
            Some(handle(&run))
        } else {
            None
        };
        self.runs.insert(k, run);
        proof {
            assert forall|i: int| 0 <= i < old_runs.len() && i != k implies self.runs@[i]
                == old_runs[i] by {
                if i < k {
                    assert(self.runs@[i] == old_runs[i]);
                } else {
                    assert(self.runs@[i] == old_runs[i]);
                }
            }
        }
        result
    }

    /// The response that ended the first run of cell `cell_id`, if kept.
    pub fn terminal_response(&self, cell_id: &String) -> (r: Option<&R>)
        ensures
            match run_of_cell(self.runs(), cell_id@) {
                None => r is None,
                Some(k) => match self.runs()[k].terminal_response {
                    None => r is None,
                    Some(x) => r matches Some(y) && *y == x,
                },
            },
    {
        match find_run_of_cell(&self.runs, cell_id) {
            None => None,
            Some(k) => {
                proof {
                    lemma_run_of_cell_from(self.runs@, cell_id@, 0);
                }
                self.runs[k].terminal_response.as_ref()
            },
        }
    }

    /// The handle of the first run with identifier `run_id`.
    pub fn run(&self, run_id: &String) -> (r: Option<WorkflowRunHandle>)
        ensures
            match run_with_id(self.runs(), run_id@) {
                None => r is None,
                Some(k) => r matches Some(h) && handles(h, self.runs()[k]),
            },
    {
        match find_run_with_id(&self.runs, run_id) {
            None => None,
            Some(k) => {
                proof {
                    lemma_run_with_id_from(self.runs@, run_id@, 0);
                }
                Some(handle(&self.runs[k]))
            },
        }
    }

    /// The wait lock of cell `cell_id`.
    pub fn wait_lock(&self, cell_id: &String) -> (r: Option<&L>)
        ensures
            match lock_entry(self.lock_entries(), cell_id@) {
                None => r is None,
                Some(k) => r matches Some(l) && *l == self.lock_entries()[k].lock,
            },
    {
        match find_lock_entry(&self.wait_locks, cell_id) {
            None => None,
            Some(k) => {
                proof {
                    lemma_lock_entry_from(self.wait_locks@, cell_id@, 0);
                }
                Some(&self.wait_locks[k].lock)
            },
        }
    }

    /// Records that cell `cell_id` owns `agent`. A cell new to the registry
    /// is appended, evicting the longest-tracked cell when
    /// `MAX_PENDING_WORKFLOW_CELLS` cells are tracked; an agent already
    /// recorded is not recorded twice.
    pub fn track_agent(&mut self, cell_id: String, agent: WorkflowOwnedAgent)
        requires
            old(self).wf(),
        ensures
            final(self).wf(),
            final(self).runs() == old(self).runs(),
            final(self).lock_entries() == old(self).lock_entries(),
            tracked_entries(final(self).agent_entries(), old(self).agent_entries(), cell_id@, agent),
    {
        match find_agents_entry(&self.owned_agents, &cell_id) {
            Some(k) => {
                proof {
                    lemma_agents_entry_from(self.owned_agents@, cell_id@, 0);
                }
                if !contains_agent(&self.owned_agents[k].agents, &agent) {
                    let ghost old_entries = self.owned_agents@;
                    let mut entry = self.owned_agents.remove(k);
                    entry.agents.push(agent);
                    self.owned_agents.insert(k, entry);
                    proof {
                        let e = self.owned_agents@;
                        assert forall|i: int| 0 <= i < old_entries.len() && i != k implies e[i]
                            == old_entries[i] by {}
                        assert forall|i: int, j: int| 0 <= i < j < e.len() implies (
                        #[trigger] e[i]).cell_id@ != (#[trigger] e[j]).cell_id@ by {
                            assert(e[i].cell_id == old_entries[i].cell_id);
                            assert(e[j].cell_id == old_entries[j].cell_id);
                        }
                    }
                }
            },
            None => {
                proof {
                    lemma_agents_entry_from(self.owned_agents@, cell_id@, 0);
                }
                if self.owned_agents.len() >= MAX_PENDING_WORKFLOW_CELLS {
                    proof {
                        lemma_remove_keeps_distinct_agents(self.owned_agents@, 0);
                        assert(self.owned_agents@.remove(0) =~= self.owned_agents@.drop_first());
                    }
                    self.owned_agents.remove(0);
                }
                let ghost base = self.owned_agents@;
                let mut agents: Vec<WorkflowOwnedAgent> = Vec::new();
                agents.push(agent);
                self.owned_agents.push(CellAgents { cell_id, agents });
                proof {
                    let e = self.owned_agents@;
                    assert(e.drop_last() =~= base);
                    assert forall|i: int, j: int| 0 <= i < j < e.len() implies (
                    #[trigger] e[i]).cell_id@ != (#[trigger] e[j]).cell_id@ by {
                        assert(e[i] == base[i]);
                        if j < base.len() {
                            assert(e[j] == base[j]);
                        }
                    }
                    assert(e.last().agents@ =~= seq![agent]);
                }
            },
        }
    }

    /// Forgets the agents of thread `thread_id` that cell `cell_id` owned,
    /// dropping the cell's entry once it owns none.
    pub fn untrack_agent(&mut self, cell_id: &String, thread_id: &String)
        requires
            old(self).wf(),
        ensures
            final(self).wf(),
            final(self).runs() == old(self).runs(),
            final(self).lock_entries() == old(self).lock_entries(),
            match agents_entry(old(self).agent_entries(), cell_id@) {
                None => final(self).agent_entries() == old(self).agent_entries(),
                Some(k) => {
                    let left = without_thread(old(self).agent_entries()[k].agents@, thread_id@);
                    if left.len() == 0 {
                        final(self).agent_entries() == old(self).agent_entries().remove(k)
                    } else {
                        &&& final(self).agent_entries().len() == old(self).agent_entries().len()
                        &&& forall|i: int|
                            0 <= i < old(self).agent_entries().len() && i != k ==> final(self).agent_entries()[i] == old(self).agent_entries()[i]
                        &&& final(self).agent_entries()[k].cell_id == old(self).agent_entries()[k].cell_id
                        &&& final(self).agent_entries()[k].agents@ == left
                    }
                },
            },
    {
        match find_agents_entry(&self.owned_agents, cell_id) {
            None => {},
            Some(k) => {
                proof {
                    lemma_agents_entry_from(self.owned_agents@, cell_id@, 0);
                    lemma_remove_keeps_distinct_agents(self.owned_agents@, k as int);
                }
                let ghost old_entries = self.owned_agents@;
                let entry = self.owned_agents.remove(k);
                let kept = agents_without_thread(&entry.agents, thread_id);
                if kept.len() > 0 {
                    self.owned_agents.insert(k, CellAgents { cell_id: entry.cell_id, agents: kept });
                    proof {
                        let e = self.owned_agents@;
                        assert forall|i: int| 0 <= i < old_entries.len() && i != k implies e[i]
                            == old_entries[i] by {}
                        assert forall|i: int, j: int| 0 <= i < j < e.len() implies (
                        #[trigger] e[i]).cell_id@ != (#[trigger] e[j]).cell_id@ by {
                            assert(e[i].cell_id == old_entries[i].cell_id);
                            assert(e[j].cell_id == old_entries[j].cell_id);
                        }
                    }
                }
            },
        }
    }

    /// Hands over the agents cell `cell_id` owns and drops its entry.
    pub fn take_agents(&mut self, cell_id: &String) -> (r: Vec<WorkflowOwnedAgent>)
        requires
            old(self).wf(),
        ensures
            final(self).wf(),
            final(self).runs() == old(self).runs(),
            final(self).lock_entries() == old(self).lock_entries(),
            match agents_entry(old(self).agent_entries(), cell_id@) {
                None => r@.len() == 0 && final(self).agent_entries() == old(self).agent_entries(),
                Some(k) => r@ == old(self).agent_entries()[k].agents@ && final(self).agent_entries()
                    == old(self).agent_entries().remove(k),
            },
    {
        match find_agents_entry(&self.owned_agents, cell_id) {
            None => Vec::new(),
            Some(k) => {
                proof {
                    lemma_agents_entry_from(self.owned_agents@, cell_id@, 0);
                    lemma_remove_keeps_distinct_agents(self.owned_agents@, k as int);
                }
                let entry = self.owned_agents.remove(k);
                entry.agents
            },
        }
    }

    /// The persistence line for a run summary.
    pub fn persistence_marker(summary: &WorkflowRunSummary) -> (r: Result<String, String>)
        ensures
            r matches Ok(line) && line@ == persisted_line(
                summary.id@,
                summary.name@,
                summary.cell_id@,
                summary.status,
            ),
    {
        let mut line = String::from_str(WORKFLOW_RUN_MARKER);
        line.append("{\"id\":");
        line.append(json_string_literal(summary.id.as_str()).as_str());
        line.append(",\"name\":");
        line.append(json_string_literal(summary.name.as_str()).as_str());
        line.append(",\"cell_id\":");
        line.append(json_string_literal(summary.cell_id.as_str()).as_str());
        line.append(",\"status\":");
        line.append(json_string_literal(summary.status.as_str()).as_str());
        line.append("}");
        Ok(line)
    }
}

impl<R, L> Default for WorkflowService<R, L> {
    /// An empty registry.
    fn default() -> (r: Self)
        ensures
            r.wf(),
            r.runs().len() == 0,
            r.agent_entries().len() == 0,
            r.lock_entries().len() == 0,
    {
        WorkflowService::new()
    }
}

} // verus!

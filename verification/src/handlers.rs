//! The decisions of the workflow tools (`run_workflow`, `wait_workflow`,
//! `list_workflows`, `control_workflow`): argument limits, which source to
//! compile, what to do with a cell, and the texts returned to the model.

use vstd::prelude::*;

use crate::compile::WorkflowAgentApi;
use crate::loader::{
    agent_api_choice, api_tool_names, file_name_of, lemma_segment_start, workflow_agent_api,
    ToolDefinition, ToolName,
};
use crate::trim::same_text;
use crate::service::{
    WorkflowAgentVersion, DEFAULT_WORKFLOW_LIST_LIMIT, MAX_WORKFLOW_LIST_LIMIT,
};
use crate::status::{status_name, CodeCellStatus, WorkflowRunStatus};
use crate::text::{chars_of, string_of_range};
use vstd::string::StringSliceAdditionalSpecFns;

verus! {

pub const CONTROL_WORKFLOW_TOOL_NAME: &'static str = "control_workflow";

pub const LIST_WORKFLOWS_TOOL_NAME: &'static str = "list_workflows";

pub const RUN_WORKFLOW_TOOL_NAME: &'static str = "run_workflow";

pub const WAIT_WORKFLOW_TOOL_NAME: &'static str = "wait_workflow";

pub const MAX_WORKFLOW_OUTPUT_TOKENS: usize = 10000;

pub const MAX_WORKFLOW_ARGUMENT_BYTES: usize = 16384;

pub const MAX_WORKFLOW_NAME_BYTES: usize = 256;

pub const MAX_WORKFLOW_YIELD_TIME_MS: u64 = 30000;

/// Initial wait of `run_workflow` before it returns a running cell.
pub const DEFAULT_RUN_YIELD_TIME_MS: u64 = 1000;

/// Wait of `wait_workflow` before it yields more output.
pub const DEFAULT_WAIT_YIELD_TIME_MS: u64 = 10000;

/// The arguments of a `run_workflow` call.
pub struct RunWorkflowArgs {
    pub name: Option<String>,
    pub path: Option<String>,
    pub source: Option<String>,
    pub args: Option<serde_json::Value>,
    pub yield_time_ms: Option<u64>,
    pub max_output_tokens: Option<usize>,
}

/// The arguments of a `wait_workflow` call.
pub struct WaitWorkflowArgs {
    pub cell_id: String,
    pub yield_time_ms: Option<u64>,
    pub max_tokens: Option<usize>,
    pub terminate: Option<bool>,
}

/// Where the workflow to run comes from.
pub enum WorkflowSourceRequest {
    /// A file below a workflows directory.
    File { path: String },
    /// Ephemeral source given inline.
    Inline { source: String },
}

/// What `wait_workflow` does with the cell.
#[derive(Clone, Copy, Debug, PartialEq, Eq, Structural)]
pub enum WaitPlan {
    /// Answer with the response that already ended the run.
    ReturnStoredResponse,
    /// Stop the run's agents, then terminate the cell.
    TerminateCell,
    /// Wait on the cell for up to the given time.
    WaitOnCell { yield_time_ms: u64 },
}

/// How a workflow's agent is stopped when its cell ends.
#[derive(Clone, Copy, Debug, PartialEq, Eq, Structural)]
pub enum AgentStopAction {
    CloseAgent,
    InterruptAgent,
}

pub open spec fn msg_run_arguments_too_large() -> Seq<char> {
    "run_workflow arguments exceed the 16384-byte limit"@
}

pub open spec fn msg_run_max_output_tokens() -> Seq<char> {
    "run_workflow max_output_tokens cannot exceed 10000"@
}

pub open spec fn msg_run_yield_time() -> Seq<char> {
    "run_workflow yield_time_ms cannot exceed 30000"@
}

pub open spec fn msg_run_name_too_long() -> Seq<char> {
    "run_workflow name cannot exceed 256 bytes"@
}

pub open spec fn msg_environment_starting() -> Seq<char> {
    "run_workflow cannot start while a turn environment is still starting"@
}

pub open spec fn msg_one_environment() -> Seq<char> {
    "run_workflow requires exactly one turn environment"@
}

pub open spec fn msg_both_sources() -> Seq<char> {
    "run_workflow accepts exactly one of `path` or `source`, not both"@
}

pub open spec fn msg_no_source() -> Seq<char> {
    "run_workflow requires exactly one of `path` or `source`"@
}

pub open spec fn msg_wait_max_tokens() -> Seq<char> {
    "wait_workflow max_tokens cannot exceed 10000"@
}

pub open spec fn msg_wait_yield_time() -> Seq<char> {
    "wait_workflow yield_time_ms cannot exceed 30000"@
}

pub open spec fn msg_list_limit() -> Seq<char> {
    "list_workflows limit must be from 1 through 50"@
}

/// The raw arguments of `run_workflow` fit in `MAX_WORKFLOW_ARGUMENT_BYTES`.
pub fn check_run_arguments_size(arguments: &str) -> (r: Result<(), String>)
    ensures
        r is Ok <==> arguments.spec_bytes().len() <= MAX_WORKFLOW_ARGUMENT_BYTES,
        r matches Err(m) ==> m@ == msg_run_arguments_too_large(),
{
    if arguments.as_bytes().len() > MAX_WORKFLOW_ARGUMENT_BYTES {
        return Err(String::from_str("run_workflow arguments exceed the 16384-byte limit"));
    }
    Ok(())
}

/// The error of a tool call whose payload is not JSON arguments.
pub fn arguments_kind_message(tool: &str) -> (r: String)
    ensures
        r@ == tool@ + " expects JSON arguments"@,
{
    let mut text = String::from_str(tool);
    text.append(" expects JSON arguments");
    text
}

/// The error of a tool call whose JSON arguments do not parse.
pub fn parse_failure_message(tool: &str, error: &str) -> (r: String)
    ensures
        r@ == "failed to parse "@ + tool@ + " arguments: "@ + error@,
{
    let mut text = String::from_str("failed to parse ");
    text.append(tool);
    text.append(" arguments: ");
    text.append(error);
    text
}

/// `run_workflow` runs only under its own, unqualified tool name.
pub fn check_run_tool_name(tool_name: &ToolName) -> (r: Result<(), String>)
    ensures
        r is Ok <==> tool_name.name@ == RUN_WORKFLOW_TOOL_NAME@ && tool_name.namespace is None,
        r matches Err(m) ==> m@ == "run_workflow received an unexpected tool name"@,
{
    if same_text(tool_name.name.as_str(), RUN_WORKFLOW_TOOL_NAME) && tool_name.namespace.is_none() {
        Ok(())
    } else {
        Err(String::from_str("run_workflow received an unexpected tool name"))
    }
}

/// The error of a `list_workflows` answer that could not be written as JSON.
pub fn serialize_runs_failure_message(error: &str) -> (r: String)
    ensures
        r@ == "failed to serialize workflow runs: "@ + error@,
{
    let mut text = String::from_str("failed to serialize workflow runs: ");
    text.append(error);
    text
}

/// The limits on the parsed `run_workflow` arguments, checked in order:
/// output tokens, yield time, then the byte length of the run name.
pub open spec fn run_args_check(
    max_output_tokens: Option<usize>,
    yield_time_ms: Option<u64>,
    name: Option<Seq<char>>,
) -> Result<(), Seq<char>> {
    if max_output_tokens matches Some(t) && t > MAX_WORKFLOW_OUTPUT_TOKENS {
        Err(msg_run_max_output_tokens())
    } else if yield_time_ms matches Some(y) && y > MAX_WORKFLOW_YIELD_TIME_MS {
        Err(msg_run_yield_time())
    } else if name matches Some(n) && vstd::utf8::encode_utf8(n).len() > MAX_WORKFLOW_NAME_BYTES {
        Err(msg_run_name_too_long())
    } else {
        Ok(())
    }
}

/// Checks the limits on the parsed `run_workflow` arguments.
pub fn validate_run_workflow_args(args: &RunWorkflowArgs) -> (r: Result<(), String>)
    ensures
        match run_args_check(
            args.max_output_tokens,
            args.yield_time_ms,
            match args.name {
                Some(n) => Some(n@),
                None => None,
            },
        ) {
            Ok(()) => r is Ok,
            Err(e) => r matches Err(m) && m@ == e,
        },
{
    if let Some(t) = args.max_output_tokens {
        if t > MAX_WORKFLOW_OUTPUT_TOKENS {
            return Err(String::from_str("run_workflow max_output_tokens cannot exceed 10000"));
        }
    }
    if let Some(y) = args.yield_time_ms {
        if y > MAX_WORKFLOW_YIELD_TIME_MS {
            return Err(String::from_str("run_workflow yield_time_ms cannot exceed 30000"));
        }
    }
    if let Some(n) = &args.name {
        if n.as_str().as_bytes().len() > MAX_WORKFLOW_NAME_BYTES {
            return Err(String::from_str("run_workflow name cannot exceed 256 bytes"));
        }
    }
    Ok(())
}

/// A run starts only once no turn environment is starting and exactly one
/// is ready.
pub fn check_turn_environments(starting: bool, ready: usize) -> (r: Result<(), String>)
    ensures
        starting ==> (r matches Err(m) && m@ == msg_environment_starting()),
        !starting && ready != 1 ==> (r matches Err(m) && m@ == msg_one_environment()),
        !starting && ready == 1 ==> r is Ok,
{
    if starting {
        return Err(
            String::from_str("run_workflow cannot start while a turn environment is still starting"),
        );
    }
    if ready != 1 {
        return Err(String::from_str("run_workflow requires exactly one turn environment"));
    }
    Ok(())
}

/// The file stem `Path::file_stem` gives for a file name: the part before
/// its last dot, unless there is no dot or only a leading one.
pub open spec fn stem_of(f: Seq<char>) -> Seq<char> {
    match last_dot(f, f.len() as int) {
        Some(k) => if k == 0 {
            f
        } else {
            f.subrange(0, k)
        },
        None => f,
    }
}

/// The last dot of `f[..j]`.
pub open spec fn last_dot(f: Seq<char>, j: int) -> Option<int>
    decreases j,
{
    if j <= 0 || j > f.len() {
        None
    } else if f[j - 1] == '.' {
        Some(j - 1)
    } else {
        last_dot(f, j - 1)
    }
}

/// The display name of a run: the given name, else the stem of the
/// workflow file, else `ephemeral`.
pub open spec fn run_display_name(name: Option<Seq<char>>, path: Option<Seq<char>>) -> Seq<char> {
    match name {
        Some(n) => n,
        None => match path {
            Some(p) => match file_name_of(p, p.len() as int) {
                Some(f) => stem_of(f),
                None => "ephemeral"@,
            },
            None => "ephemeral"@,
        },
    }
}

/// The file name of a path, if it has one.
fn file_name_text(p: &[char]) -> (r: Option<String>)
    ensures
        match file_name_of(p@, p@.len() as int) {
            None => r is None,
            Some(f) => r matches Some(s) && s@ == f,
        },
{
    let n = p.len();
    let mut j = n;
    loop
        invariant
            n == p@.len(),
            j <= n,
            file_name_of(p@, n as int) == file_name_of(p@, j as int),
        decreases j,
    {
        let mut k = j;
        while k > 0 && p[k - 1] != '/'
            invariant
                k <= j <= p@.len(),
                crate::loader::segment_start(p@, k as int) == crate::loader::segment_start(
                    p@,
                    j as int,
                ),
            decreases k,
        {
            k = k - 1;
        }
        let seg = string_of_range(p, k, j);
        let dot = crate::trim::same_text(seg.as_str(), ".");
        let dots = crate::trim::same_text(seg.as_str(), "..");
        if j > k && !dot {
            proof {
                assert(seg@.len() > 0);
            }
            if dots {
                return None;
            }
            return Some(seg);
        }
        if k == 0 {
            proof {
                if j > k {
                    assert(seg@ == "."@);
                }
            }
            return None;
        }
        proof {
            lemma_segment_start(p@, j as int);
        }
        j = k - 1;
    }
}

/// The display name of a run.
pub fn workflow_run_name(name: Option<&String>, path: Option<&String>) -> (r: String)
    ensures
        r@ == run_display_name(
            match name {
                Some(n) => Some(n@),
                None => None,
            },
            match path {
                Some(p) => Some(p@),
                None => None,
            },
        ),
{
    if let Some(n) = name {
        return n.clone();
    }
    let p = match path {
        Some(p) => p,
        None => return String::from_str("ephemeral"),
    };
    let chars = chars_of(p.as_str());
    let f = match file_name_text(chars.as_slice()) {
        Some(f) => f,
        None => return String::from_str("ephemeral"),
    };
    let fc = chars_of(f.as_str());
    let mut j = fc.len();
    while j > 0 && fc[j - 1] != '.'
        invariant
            j <= fc@.len(),
            last_dot(fc@, j as int) == last_dot(fc@, fc@.len() as int),
        decreases j,
    {
        j = j - 1;
    }
    if j <= 1 {
        proof {
            if j == 1 {
                assert(last_dot(fc@, 1) == Some(0int));
            }
        }
        return f;
    }
    string_of_range(fc.as_slice(), 0, j - 1)
}

/// Which source to compile: exactly one of a path and inline source.
pub fn select_workflow_source(path: Option<&String>, source: Option<&String>) -> (r: Result<
    WorkflowSourceRequest,
    String,
>)
    ensures
        match (path, source) {
            (Some(p), None) => r matches Ok(WorkflowSourceRequest::File { path: q }) && q@ == p@,
            (None, Some(s)) => r matches Ok(WorkflowSourceRequest::Inline { source: t }) && t@ == s@,
            (Some(_), Some(_)) => r matches Err(m) && m@ == msg_both_sources(),
            (None, None) => r matches Err(m) && m@ == msg_no_source(),
        },
{
    match (path, source) {
        (Some(p), None) => Ok(WorkflowSourceRequest::File { path: p.clone() }),
        (None, Some(s)) => Ok(WorkflowSourceRequest::Inline { source: s.clone() }),
        (Some(_), Some(_)) => Err(
            String::from_str("run_workflow accepts exactly one of `path` or `source`, not both"),
        ),
        (None, None) => Err(String::from_str("run_workflow requires exactly one of `path` or `source`")),
    }
}

/// The initial wait of a `run_workflow` call.
pub fn run_yield_time(yield_time_ms: Option<u64>) -> (r: u64)
    ensures
        r == match yield_time_ms {
            Some(y) => y,
            None => DEFAULT_RUN_YIELD_TIME_MS,
        },
{
    match yield_time_ms {
        Some(y) => y,
        None => DEFAULT_RUN_YIELD_TIME_MS,
    }
}

/// The text put before the output of a launched run: its identifier and
/// status, then the persistence line of the run.
pub open spec fn run_header(id: Seq<char>, status: WorkflowRunStatus, marker: Seq<char>) -> Seq<char> {
    "Managed workflow run "@ + id + " ("@ + status_name(status) + ").\n"@ + marker + "\n"@
}

/// The text put before the output of a launched run.
pub fn managed_run_header(id: &str, status: WorkflowRunStatus, marker: &str) -> (r: String)
    ensures
        r@ == run_header(id@, status, marker@),
{
    let mut text = String::from_str("Managed workflow run ");
    text.append(id);
    text.append(" (");
    text.append(status.as_str());
    text.append(").\n");
    text.append(marker);
    text.append("\n");
    text
}

/// The limits on `wait_workflow` arguments: output tokens, then yield time.
pub fn validate_wait_workflow_args(args: &WaitWorkflowArgs) -> (r: Result<(), String>)
    ensures
        args.max_tokens matches Some(t) && t > MAX_WORKFLOW_OUTPUT_TOKENS ==> (r matches Err(m)
            && m@ == msg_wait_max_tokens()),
        !(args.max_tokens matches Some(t) && t > MAX_WORKFLOW_OUTPUT_TOKENS) && (
        args.yield_time_ms matches Some(y) && y > MAX_WORKFLOW_YIELD_TIME_MS) ==> (r matches Err(m)
            && m@ == msg_wait_yield_time()),
        !(args.max_tokens matches Some(t) && t > MAX_WORKFLOW_OUTPUT_TOKENS) && !(
        args.yield_time_ms matches Some(y) && y > MAX_WORKFLOW_YIELD_TIME_MS) ==> r is Ok,
{
    if let Some(t) = args.max_tokens {
        if t > MAX_WORKFLOW_OUTPUT_TOKENS {
            return Err(String::from_str("wait_workflow max_tokens cannot exceed 10000"));
        }
    }
    if let Some(y) = args.yield_time_ms {
        if y > MAX_WORKFLOW_YIELD_TIME_MS {
            return Err(String::from_str("wait_workflow yield_time_ms cannot exceed 30000"));
        }
    }
    Ok(())
}

/// What `wait_workflow` does: terminate when asked; otherwise answer with a
/// stored final response if the run has one, else wait on the cell.
pub fn wait_plan(terminate: Option<bool>, has_terminal_response: bool, yield_time_ms: Option<u64>) -> (r: WaitPlan)
    ensures
        terminate == Some(true) ==> r == WaitPlan::TerminateCell,
        terminate != Some(true) && has_terminal_response ==> r == WaitPlan::ReturnStoredResponse,
        terminate != Some(true) && !has_terminal_response ==> r == (WaitPlan::WaitOnCell {
            yield_time_ms: match yield_time_ms {
                Some(y) => y,
                None => DEFAULT_WAIT_YIELD_TIME_MS,
            },
        }),
{
    let terminate = match terminate {
        Some(t) => t,
        None => false,
    };
    if !terminate && has_terminal_response {
        return WaitPlan::ReturnStoredResponse;
    }
    if terminate {
        return WaitPlan::TerminateCell;
    }
    WaitPlan::WaitOnCell {
        yield_time_ms: match yield_time_ms {
            Some(y) => y,
            None => DEFAULT_WAIT_YIELD_TIME_MS,
        },
    }
}

/// The turn-environment rule as a result.
pub open spec fn environments_check(starting: bool, ready: usize) -> Result<(), Seq<char>> {
    if starting {
        Err(msg_environment_starting())
    } else if ready != 1 {
        Err(msg_one_environment())
    } else {
        Ok(())
    }
}

/// The source rule as a result: exactly one of a path and inline source.
pub open spec fn source_check(path: Option<Seq<char>>, source: Option<Seq<char>>) -> Result<(), Seq<char>> {
    match (path, source) {
        (Some(_), Some(_)) => Err(msg_both_sources()),
        (None, None) => Err(msg_no_source()),
        _ => Ok(()),
    }
}

pub open spec fn opt_view(o: Option<String>) -> Option<Seq<char>> {
    match o {
        Some(s) => Some(s@),
        None => None,
    }
}

/// The first rule a parsed `run_workflow` call breaks, in the order the
/// tool checks them: argument limits, turn environments, the collaboration
/// tools, then the choice of source.
pub open spec fn run_plan_check(
    args: RunWorkflowArgs,
    starting: bool,
    ready: usize,
    tools: Seq<ToolDefinition>,
) -> Result<(), Seq<char>> {
    match run_args_check(args.max_output_tokens, args.yield_time_ms, opt_view(args.name)) {
        Err(e) => Err(e),
        Ok(()) => match environments_check(starting, ready) {
            Err(e) => Err(e),
            Ok(()) => match agent_api_choice(tools) {
                Err(e) => Err(e),
                Ok(_) => source_check(opt_view(args.path), opt_view(args.source)),
            },
        },
    }
}

/// What a `run_workflow` call will do once its checks pass: the run's
/// name, the collaboration tools the program binds, the source to compile
/// and the initial wait.
pub struct RunPlan {
    pub name: String,
    pub agent_api: WorkflowAgentApi,
    pub source: WorkflowSourceRequest,
    pub yield_time_ms: u64,
}

/// Plans a parsed `run_workflow` call: checks it in order and, when it
/// passes, fixes everything the launch needs before the program is compiled
/// and its cell started.
pub fn plan_run_workflow(
    args: &RunWorkflowArgs,
    environments_starting: bool,
    ready_environments: usize,
    tools: &[ToolDefinition],
) -> (r: Result<RunPlan, String>)
    ensures
        match run_plan_check(*args, environments_starting, ready_environments, tools@) {
            Err(e) => r matches Err(m) && m@ == e,
            Ok(()) => r matches Ok(plan) && {
                &&& plan.name@ == run_display_name(opt_view(args.name), opt_view(args.path))
                &&& agent_api_choice(tools@) == Ok::<Seq<Seq<char>>, Seq<char>>(
                    api_tool_names(plan.agent_api),
                )
                &&& match plan.source {
                    WorkflowSourceRequest::File { path } => opt_view(args.path) == Some(path@)
                        && args.source is None,
                    WorkflowSourceRequest::Inline { source } => opt_view(args.source) == Some(
                        source@,
                    ) && args.path is None,
                }
                &&& plan.yield_time_ms == match args.yield_time_ms {
                    Some(y) => y,
                    None => DEFAULT_RUN_YIELD_TIME_MS,
                }
            },
        },
{
    validate_run_workflow_args(args)?;
    check_turn_environments(environments_starting, ready_environments)?;
    let name = workflow_run_name(args.name.as_ref(), args.path.as_ref());
    let agent_api = workflow_agent_api(tools)?;
    let source = select_workflow_source(args.path.as_ref(), args.source.as_ref())?;
    Ok(RunPlan { name, agent_api, source, yield_time_ms: run_yield_time(args.yield_time_ms) })
}

/// What a launch does once its cell has answered.
#[derive(Clone, Copy, Debug, PartialEq, Eq, Structural)]
pub enum StartedPlan {
    /// The cell still runs: register the run without a final response and
    /// watch the cell until it ends.
    RegisterAndWatch,
    /// The cell already ended: register the run with its response and stop
    /// the agents the cell owns.
    RegisterFinalAndCleanUp,
}

/// What a launch does once its cell has answered with `status`.
pub fn plan_started_cell(status: CodeCellStatus) -> (r: StartedPlan)
    ensures
        status == CodeCellStatus::Running ==> r == StartedPlan::RegisterAndWatch,
        status != CodeCellStatus::Running ==> r == StartedPlan::RegisterFinalAndCleanUp,
{
    match status {
        CodeCellStatus::Running => StartedPlan::RegisterAndWatch,
        _ => StartedPlan::RegisterFinalAndCleanUp,
    }
}

/// The next step of `control_workflow`.
pub enum ControlStep {
    /// Answer with an error.
    Fail { message: String },
    /// Answer with this text.
    Answer { text: String },
    /// Take the cell's wait lock, then look at the run again.
    LockAndRecheck,
    /// Stop the cell's agents, terminate the cell, and finish the run.
    StopAgentsAndTerminate,
}

/// The spec view of a control step.
pub enum ControlStepView {
    Fail { message: Seq<char> },
    Answer { text: Seq<char> },
    LockAndRecheck,
    StopAgentsAndTerminate,
}

impl View for ControlStep {
    type V = ControlStepView;

    open spec fn view(&self) -> ControlStepView {
        match self {
            ControlStep::Fail { message } => ControlStepView::Fail { message: message@ },
            ControlStep::Answer { text } => ControlStepView::Answer { text: text@ },
            ControlStep::LockAndRecheck => ControlStepView::LockAndRecheck,
            ControlStep::StopAgentsAndTerminate => ControlStepView::StopAgentsAndTerminate,
        }
    }
}

pub open spec fn already_final_text(run_id: Seq<char>, status: WorkflowRunStatus) -> Seq<char> {
    "Workflow run "@ + run_id + " is already "@ + status_name(status) + "."@
}

/// The first decision of `control_workflow` on a terminate request, from the
/// run's status (absent for an unknown run) and whether its cell still has a
/// wait lock.
pub open spec fn control_first(
    run_id: Seq<char>,
    status: Option<WorkflowRunStatus>,
    has_wait_lock: bool,
) -> ControlStepView {
    match status {
        None => ControlStepView::Fail { message: "workflow run "@ + run_id + " was not found"@ },
        Some(st) => if st != WorkflowRunStatus::Running {
            ControlStepView::Answer { text: already_final_text(run_id, st) }
        } else if !has_wait_lock {
            ControlStepView::Fail {
                message: "workflow run "@ + run_id + " no longer has a live runtime cell"@,
            }
        } else {
            ControlStepView::LockAndRecheck
        },
    }
}

/// The decision of `control_workflow` once it holds the cell's wait lock:
/// a run that ended meanwhile is reported, otherwise the cell is stopped.
pub open spec fn control_recheck(run_id: Seq<char>, status: Option<WorkflowRunStatus>) -> ControlStepView {
    match status {
        Some(st) => if st != WorkflowRunStatus::Running {
            ControlStepView::Answer { text: already_final_text(run_id, st) }
        } else {
            ControlStepView::StopAgentsAndTerminate
        },
        None => ControlStepView::StopAgentsAndTerminate,
    }
}

/// The first step of `control_workflow` on a terminate request.
pub fn control_first_step(
    run_id: &str,
    status: Option<WorkflowRunStatus>,
    has_wait_lock: bool,
) -> (r: ControlStep)
    ensures
        r@ == control_first(run_id@, status, has_wait_lock),
{
    match status {
        None => ControlStep::Fail { message: run_not_found_message(run_id) },
        Some(st) => if st.is_terminal() {
            ControlStep::Answer { text: already_final_message(run_id, st) }
        } else if !has_wait_lock {
            ControlStep::Fail { message: no_live_cell_message(run_id) }
        } else {
            ControlStep::LockAndRecheck
        },
    }
}

/// The step of `control_workflow` after it took the cell's wait lock.
pub fn control_recheck_step(run_id: &str, status: Option<WorkflowRunStatus>) -> (r: ControlStep)
    ensures
        r@ == control_recheck(run_id@, status),
{
    match status {
        Some(st) => if st.is_terminal() {
            ControlStep::Answer { text: already_final_message(run_id, st) }
        } else {
            ControlStep::StopAgentsAndTerminate
        },
        None => ControlStep::StopAgentsAndTerminate,
    }
}

/// How long stopping one of a finished cell's agents may take.
pub const AGENT_STOP_TIMEOUT_MS: u64 = 5000;

/// What `wait_workflow` does with the response of a wait or a termination.
#[derive(Clone, Copy, Debug, PartialEq, Eq, Structural)]
pub enum WaitedPlan {
    /// The cell still runs: record its progress on the run.
    RecordProgress,
    /// The cell ended: finish the run with the response and stop its agents.
    FinishRun,
}

/// What `wait_workflow` does with a response of this status.
pub fn plan_waited_cell(status: CodeCellStatus) -> (r: WaitedPlan)
    ensures
        status == CodeCellStatus::Running ==> r == WaitedPlan::RecordProgress,
        status != CodeCellStatus::Running ==> r == WaitedPlan::FinishRun,
{
    match status {
        CodeCellStatus::Running => WaitedPlan::RecordProgress,
        _ => WaitedPlan::FinishRun,
    }
}

/// The message for a cell the registry has no wait lock for.
pub fn cell_not_found_message(cell_id: &str) -> (r: String)
    ensures
        r@ == "workflow cell "@ + cell_id@ + " was not found in the managed run registry"@,
{
    let mut text = String::from_str("workflow cell ");
    text.append(cell_id);
    text.append(" was not found in the managed run registry");
    text
}

/// The limit of a `list_workflows` call: the default when absent, and it
/// must be from 1 through `MAX_WORKFLOW_LIST_LIMIT`.
pub fn list_limit(limit: Option<usize>) -> (r: Result<usize, String>)
    ensures
        ({
            let l = match limit {
                Some(l) => l,
                None => DEFAULT_WORKFLOW_LIST_LIMIT,
            };
            &&& 1 <= l <= MAX_WORKFLOW_LIST_LIMIT ==> r == Ok::<usize, String>(l)
            &&& !(1 <= l <= MAX_WORKFLOW_LIST_LIMIT) ==> (r matches Err(m) && m@ == msg_list_limit())
        }),
{
    let l = match limit {
        Some(l) => l,
        None => DEFAULT_WORKFLOW_LIST_LIMIT,
    };
    if l == 0 || l > MAX_WORKFLOW_LIST_LIMIT {
        return Err(String::from_str("list_workflows limit must be from 1 through 50"));
    }
    Ok(l)
}

/// The answer of `control_workflow` for a run that already ended.
pub fn already_final_message(run_id: &str, status: WorkflowRunStatus) -> (r: String)
    ensures
        r@ == "Workflow run "@ + run_id@ + " is already "@ + status_name(status) + "."@,
{
    let mut text = String::from_str("Workflow run ");
    text.append(run_id);
    text.append(" is already ");
    text.append(status.as_str());
    text.append(".");
    text
}

/// The answer of `control_workflow` once it terminated a run.
pub fn terminated_message(run_id: &str, status: CodeCellStatus) -> (r: String)
    ensures
        r@ == "Workflow run "@ + run_id@ + " is "@ + status_name(crate::status::run_status_of(status))
            + "."@,
{
    let mut text = String::from_str("Workflow run ");
    text.append(run_id);
    text.append(" is ");
    text.append(WorkflowRunStatus::from_cell_status(status).as_str());
    text.append(".");
    text
}

/// The error of `control_workflow` for an unknown run.
pub fn run_not_found_message(run_id: &str) -> (r: String)
    ensures
        r@ == "workflow run "@ + run_id@ + " was not found"@,
{
    let mut text = String::from_str("workflow run ");
    text.append(run_id);
    text.append(" was not found");
    text
}

/// The error of `control_workflow` for a run whose cell has no wait lock.
pub fn no_live_cell_message(run_id: &str) -> (r: String)
    ensures
        r@ == "workflow run "@ + run_id@ + " no longer has a live runtime cell"@,
{
    let mut text = String::from_str("workflow run ");
    text.append(run_id);
    text.append(" no longer has a live runtime cell");
    text
}

/// A finished cell's end is traced, and its dispatch finished, only when the
/// cell was still live and the finish changed the run's status.
pub fn records_cell_end(live_cell: bool, status_changed: bool) -> (r: bool)
    ensures
        r == (live_cell && status_changed),
{
    live_cell && status_changed
}

/// First-version agents are closed, second-version agents interrupted.
pub fn agent_stop_action(version: WorkflowAgentVersion) -> (r: AgentStopAction)
    ensures
        version == WorkflowAgentVersion::V1 ==> r == AgentStopAction::CloseAgent,
        version == WorkflowAgentVersion::V2 ==> r == AgentStopAction::InterruptAgent,
{
    match version {
        WorkflowAgentVersion::V1 => AgentStopAction::CloseAgent,
        WorkflowAgentVersion::V2 => AgentStopAction::InterruptAgent,
    }
}

} // verus!

use codex_workflow::dispatch::{
    host_wait_step, notify_failed_message, should_notify, CodeModeDispatchBroker, HostWaitAction,
    HostWaitEvent,
};
use codex_workflow::handlers::{
    agent_stop_action, already_final_message, arguments_kind_message, check_run_tool_name,
    parse_failure_message, serialize_runs_failure_message, control_first_step, control_recheck_step,
    plan_run_workflow, plan_started_cell, plan_waited_cell, ControlStep, StartedPlan, WaitedPlan, cell_not_found_message, check_run_arguments_size,
    check_turn_environments, list_limit, managed_run_header, no_live_cell_message,
    records_cell_end, run_not_found_message, run_yield_time, select_workflow_source,
    terminated_message, validate_run_workflow_args, validate_wait_workflow_args, wait_plan,
    workflow_run_name, AgentStopAction, RunWorkflowArgs, WaitPlan, WaitWorkflowArgs,
    WorkflowSourceRequest,
};
use codex_workflow::loader::{ToolDefinition, ToolName};
use codex_workflow::compile::{agent_api, WorkflowAgentApi};
use codex_workflow::restore::marker_payloads;
use codex_workflow::service::{WorkflowAgentVersion, WorkflowRunSummary, WorkflowService};
use codex_workflow::specs::{
    create_control_workflow_tool, create_list_workflows_tool, create_run_workflow_tool,
    create_wait_workflow_tool, SchemaKind,
};
use codex_workflow::status::{CodeCellStatus, WorkflowRunStatus};
use codex_workflow::watcher::{watch_start, watch_step, watcher_failure_text, WatchAction, WatchEvent};

fn run_args() -> RunWorkflowArgs {
    RunWorkflowArgs {
        name: None,
        path: None,
        source: None,
        args: None,
        yield_time_ms: None,
        max_output_tokens: None,
    }
}

#[test]
fn run_arguments_are_limited() {
    assert_eq!(check_run_arguments_size(&"x".repeat(16 * 1024)), Ok(()));
    assert_eq!(
        check_run_arguments_size(&"x".repeat(16 * 1024 + 1)),
        Err("run_workflow arguments exceed the 16384-byte limit".to_string())
    );
    assert_eq!(validate_run_workflow_args(&run_args()), Ok(()));
    let mut args = run_args();
    args.max_output_tokens = Some(10_001);
    args.yield_time_ms = Some(30_001);
    assert_eq!(
        validate_run_workflow_args(&args),
        Err("run_workflow max_output_tokens cannot exceed 10000".to_string())
    );
    args.max_output_tokens = Some(10_000);
    assert_eq!(
        validate_run_workflow_args(&args),
        Err("run_workflow yield_time_ms cannot exceed 30000".to_string())
    );
    args.yield_time_ms = Some(30_000);
    args.name = Some("é".repeat(129));
    assert_eq!(
        validate_run_workflow_args(&args),
        Err("run_workflow name cannot exceed 256 bytes".to_string())
    );
    args.name = Some("é".repeat(128));
    assert_eq!(validate_run_workflow_args(&args), Ok(()));
}

#[test]
fn run_needs_exactly_one_ready_environment() {
    assert_eq!(
        check_turn_environments(true, 1),
        Err("run_workflow cannot start while a turn environment is still starting".to_string())
    );
    assert_eq!(
        check_turn_environments(false, 2),
        Err("run_workflow requires exactly one turn environment".to_string())
    );
    assert_eq!(check_turn_environments(false, 1), Ok(()));
}

#[test]
fn run_names_come_from_name_then_file_stem() {
    let name = "review".to_string();
    let path = ".codex/workflows/audit.ts".to_string();
    assert_eq!(workflow_run_name(Some(&name), Some(&path)), "review");
    assert_eq!(workflow_run_name(None, Some(&path)), "audit");
    assert_eq!(workflow_run_name(None, Some(&"dir/.hidden".to_string())), ".hidden");
    assert_eq!(workflow_run_name(None, Some(&"a/b.c.js".to_string())), "b.c");
    assert_eq!(workflow_run_name(None, Some(&"..".to_string())), "ephemeral");
    assert_eq!(workflow_run_name(None, None), "ephemeral");
}

#[test]
fn exactly_one_source_is_required() {
    let path = "a.ts".to_string();
    let source = "return 1".to_string();
    assert!(matches!(
        select_workflow_source(Some(&path), None),
        Ok(WorkflowSourceRequest::File { path }) if path == "a.ts"
    ));
    assert!(matches!(
        select_workflow_source(None, Some(&source)),
        Ok(WorkflowSourceRequest::Inline { source }) if source == "return 1"
    ));
    assert!(matches!(
        select_workflow_source(Some(&path), Some(&source)),
        Err(m) if m == "run_workflow accepts exactly one of `path` or `source`, not both"
    ));
    assert!(matches!(
        select_workflow_source(None, None),
        Err(m) if m == "run_workflow requires exactly one of `path` or `source`"
    ));
    assert_eq!(run_yield_time(None), 1_000);
    assert_eq!(run_yield_time(Some(5)), 5);
}

#[test]
fn launched_run_header_carries_the_persistence_line() {
    let summary = WorkflowRunSummary {
        id: "workflow-1".into(),
        name: "audit".into(),
        cell_id: "3".into(),
        status: WorkflowRunStatus::Running,
        elapsed_ms: 0,
    };
    let marker = WorkflowService::<(), ()>::persistence_marker(&summary).expect("marker");
    let header = managed_run_header(&summary.id, summary.status, &marker);
    assert_eq!(
        header,
        "Managed workflow run workflow-1 (running).\ncodex_workflow_run_v1={\"id\":\"workflow-1\",\"name\":\"audit\",\"cell_id\":\"3\",\"status\":\"running\"}\n"
    );
    assert_eq!(
        marker_payloads(&vec![header]),
        vec!["{\"id\":\"workflow-1\",\"name\":\"audit\",\"cell_id\":\"3\",\"status\":\"running\"}".to_string()]
    );
}

#[test]
fn wait_arguments_and_plan() {
    let args = |yield_time_ms, max_tokens| WaitWorkflowArgs {
        cell_id: "7".into(),
        yield_time_ms,
        max_tokens,
        terminate: None,
    };
    assert_eq!(validate_wait_workflow_args(&args(None, None)), Ok(()));
    assert_eq!(
        validate_wait_workflow_args(&args(Some(30_001), Some(10_001))),
        Err("wait_workflow max_tokens cannot exceed 10000".to_string())
    );
    assert_eq!(
        validate_wait_workflow_args(&args(Some(30_001), None)),
        Err("wait_workflow yield_time_ms cannot exceed 30000".to_string())
    );
    assert_eq!(wait_plan(Some(true), true, None), WaitPlan::TerminateCell);
    assert_eq!(wait_plan(None, true, Some(5)), WaitPlan::ReturnStoredResponse);
    assert_eq!(wait_plan(Some(false), false, Some(5)), WaitPlan::WaitOnCell { yield_time_ms: 5 });
    assert_eq!(wait_plan(None, false, None), WaitPlan::WaitOnCell { yield_time_ms: 10_000 });
}

#[test]
fn list_limit_is_checked() {
    assert_eq!(list_limit(None), Ok(20));
    assert_eq!(list_limit(Some(50)), Ok(50));
    let message = "list_workflows limit must be from 1 through 50".to_string();
    assert_eq!(list_limit(Some(0)), Err(message.clone()));
    assert_eq!(list_limit(Some(51)), Err(message));
}

#[test]
fn control_and_wait_messages() {
    assert_eq!(
        cell_not_found_message("9"),
        "workflow cell 9 was not found in the managed run registry"
    );
    assert_eq!(run_not_found_message("w"), "workflow run w was not found");
    assert_eq!(no_live_cell_message("w"), "workflow run w no longer has a live runtime cell");
    assert_eq!(
        already_final_message("w", WorkflowRunStatus::Completed),
        "Workflow run w is already completed."
    );
    assert_eq!(
        terminated_message("w", CodeCellStatus::Terminated),
        "Workflow run w is terminated."
    );
    assert!(records_cell_end(true, true));
    assert!(!records_cell_end(true, false));
    assert!(!records_cell_end(false, true));
    assert_eq!(agent_stop_action(WorkflowAgentVersion::V1), AgentStopAction::CloseAgent);
    assert_eq!(agent_stop_action(WorkflowAgentVersion::V2), AgentStopAction::InterruptAgent);
}

#[test]
fn watcher_waits_until_the_cell_ends() {
    assert!(matches!(watch_start(), WatchAction::CheckRegistry));
    assert!(matches!(watch_step(WatchEvent::EntryMissing), WatchAction::Stop));
    assert!(matches!(watch_step(WatchEvent::AlreadyFinished), WatchAction::Stop));
    assert!(matches!(
        watch_step(WatchEvent::StillRunning),
        WatchAction::WaitOnCell { yield_time_ms: 30_000 }
    ));
    assert!(matches!(
        watch_step(WatchEvent::Waited { status: CodeCellStatus::Running, live_cell: true }),
        WatchAction::CheckRegistry
    ));
    assert!(matches!(
        watch_step(WatchEvent::Waited { status: CodeCellStatus::Completed, live_cell: false }),
        WatchAction::Finish { live_cell: false }
    ));
    assert!(matches!(
        watch_step(WatchEvent::WaitFailed { error: "gone".into() }),
        WatchAction::FinishWithError { error_text } if error_text == "workflow completion watcher failed: gone"
    ));
    assert_eq!(watcher_failure_text("x"), "workflow completion watcher failed: x");
}

#[test]
fn dispatch_binds_cells_to_the_current_turn_host() {
    let mut broker = CodeModeDispatchBroker::new();
    let cell = "cell-1".to_string();
    let turn = "turn-1".to_string();
    assert_eq!(
        broker.bind_cell_to_turn(&cell, &turn),
        Err("code mode dispatch host is unavailable for turn turn-1".to_string())
    );
    assert_eq!(broker.cell_host(&cell), None);
    let first = broker.start_turn_worker(turn.clone());
    assert_eq!(first.host_id, 1);
    assert_eq!(broker.bind_cell_to_turn(&cell, &turn), Ok(()));
    assert_eq!(broker.cell_host(&cell), Some(1));
    let second = broker.start_turn_worker(turn.clone());
    assert_eq!(second.host_id, 2);
    broker.release_worker(&first);
    assert_eq!(broker.bind_cell_to_turn(&"cell-2".to_string(), &turn), Ok(()));
    assert_eq!(broker.cell_host(&"cell-2".to_string()), Some(2));
    broker.release_worker(&second);
    assert!(broker.bind_cell_to_turn(&"cell-3".to_string(), &turn).is_err());
    assert_eq!(broker.cell_host(&cell), Some(1));
    broker.close_cell(&cell);
    assert_eq!(broker.cell_host(&cell), None);
}

#[test]
fn notifications_skip_blank_text() {
    assert!(!should_notify(" \n\t"));
    assert!(should_notify(" done "));
    assert_eq!(
        notify_failed_message("c"),
        "failed to inject exec notify message for cell c: no active turn"
    );
}

#[test]
fn tool_definitions_list_sorted_properties() {
    let run = create_run_workflow_tool();
    assert_eq!(run.name, "run_workflow");
    assert!(!run.strict);
    let names: Vec<&str> = run.parameters.properties.iter().map(|p| p.name.as_str()).collect();
    assert_eq!(
        names,
        vec!["args", "max_output_tokens", "name", "path", "source", "yield_time_ms"]
    );
    assert_eq!(run.parameters.properties[0].kind, SchemaKind::Unconstrained);
    assert!(run.parameters.required.is_none());
    assert!(!run.parameters.additional_properties);

    let list = create_list_workflows_tool();
    assert_eq!(list.name, "list_workflows");
    assert!(list.parameters.properties.is_empty());
    assert_eq!(list.parameters.required, Some(Vec::new()));

    let control = create_control_workflow_tool();
    assert_eq!(control.description, "Control a managed workflow run.");
    assert_eq!(
        control.parameters.required,
        Some(vec!["run_id".to_string(), "action".to_string()])
    );

    let wait = create_wait_workflow_tool();
    let kinds: Vec<SchemaKind> = wait.parameters.properties.iter().map(|p| p.kind).collect();
    assert_eq!(
        kinds,
        vec![SchemaKind::Str, SchemaKind::Number, SchemaKind::Boolean, SchemaKind::Number]
    );
    assert_eq!(wait.parameters.required, Some(vec!["cell_id".to_string()]));
}

#[test]
fn waiting_for_a_cell_host_ends_bound_closed_or_cancelled() {
    assert!(matches!(
        host_wait_step(HostWaitEvent::Started { cancelled: true }),
        HostWaitAction::Fail { message } if message == "code mode nested dispatch cancelled"
    ));
    assert!(matches!(
        host_wait_step(HostWaitEvent::Started { cancelled: false }),
        HostWaitAction::LookUp
    ));
    assert!(matches!(
        host_wait_step(HostWaitEvent::Looked { host_id: Some(4) }),
        HostWaitAction::Ready { host_id: 4 }
    ));
    assert!(matches!(
        host_wait_step(HostWaitEvent::Looked { host_id: None }),
        HostWaitAction::AwaitChange
    ));
    assert!(matches!(
        host_wait_step(HostWaitEvent::Changed { closed: true }),
        HostWaitAction::Fail { message } if message == "code mode cell dispatch host closed"
    ));
    assert!(matches!(
        host_wait_step(HostWaitEvent::Changed { closed: false }),
        HostWaitAction::LookUp
    ));
    assert!(matches!(
        host_wait_step(HostWaitEvent::Cancelled),
        HostWaitAction::Fail { message } if message == "code mode nested dispatch cancelled"
    ));
}

#[test]
fn broker_knows_cells_until_they_close() {
    let mut broker = CodeModeDispatchBroker::new();
    let cell = "cell".to_string();
    assert!(!broker.has_cell(&cell));
    assert_eq!(broker.cell_host(&cell), None);
    assert!(broker.has_cell(&cell));
    broker.close_cell(&cell);
    assert!(!broker.has_cell(&cell));
}

#[test]
fn tool_call_errors() {
    assert_eq!(arguments_kind_message("run_workflow"), "run_workflow expects JSON arguments");
    assert_eq!(
        parse_failure_message("wait_workflow", "missing field `cell_id`"),
        "failed to parse wait_workflow arguments: missing field `cell_id`"
    );
    assert_eq!(serialize_runs_failure_message("x"), "failed to serialize workflow runs: x");
    let plain = ToolName { name: "run_workflow".into(), namespace: None };
    assert_eq!(check_run_tool_name(&plain), Ok(()));
    let qualified = ToolName { name: "run_workflow".into(), namespace: Some("ns".into()) };
    assert_eq!(
        check_run_tool_name(&qualified),
        Err("run_workflow received an unexpected tool name".to_string())
    );
}

fn v1_tools() -> Vec<ToolDefinition> {
    ["spawn_agent", "wait_agent", "close_agent"]
        .iter()
        .map(|name| ToolDefinition {
            name: format!("multi_agent_v1__{name}"),
            tool_name: ToolName { name: name.to_string(), namespace: Some("multi_agent_v1".into()) },
        })
        .collect()
}

#[test]
fn run_plan_checks_in_order_then_fixes_the_launch() {
    let mut args = run_args();
    args.path = Some(".codex/workflows/audit.ts".into());
    args.yield_time_ms = Some(250);
    let plan = plan_run_workflow(&args, false, 1, &v1_tools()).expect("plan");
    assert_eq!(plan.name, "audit");
    assert_eq!(plan.agent_api, agent_api());
    assert!(matches!(&plan.source, WorkflowSourceRequest::File { path } if path == ".codex/workflows/audit.ts"));
    assert_eq!(plan.yield_time_ms, 250);

    args.max_output_tokens = Some(20_000);
    assert_eq!(
        plan_run_workflow(&args, true, 0, &[]).err(),
        Some("run_workflow max_output_tokens cannot exceed 10000".to_string())
    );
    args.max_output_tokens = None;
    assert_eq!(
        plan_run_workflow(&args, true, 0, &[]).err(),
        Some("run_workflow cannot start while a turn environment is still starting".to_string())
    );
    assert_eq!(
        plan_run_workflow(&args, false, 1, &[]).err(),
        Some("workflow agent helpers require a complete collaboration tool surface".to_string())
    );
    args.source = Some("return 1".into());
    assert_eq!(
        plan_run_workflow(&args, false, 1, &v1_tools()).err(),
        Some("run_workflow accepts exactly one of `path` or `source`, not both".to_string())
    );
    let inline = RunWorkflowArgs { source: Some("return 1".into()), ..run_args() };
    let plan = plan_run_workflow(&inline, false, 1, &v1_tools()).expect("plan");
    assert_eq!(plan.name, "ephemeral");
    assert_eq!(plan.yield_time_ms, 1_000);
    assert!(matches!(plan.agent_api, WorkflowAgentApi::V1 { .. }));
    assert_eq!(plan_started_cell(CodeCellStatus::Running), StartedPlan::RegisterAndWatch);
    assert_eq!(plan_started_cell(CodeCellStatus::Failed), StartedPlan::RegisterFinalAndCleanUp);
}

#[test]
fn control_steps_report_missing_final_or_terminate() {
    assert!(matches!(
        control_first_step("w", None, false),
        ControlStep::Fail { message } if message == "workflow run w was not found"
    ));
    assert!(matches!(
        control_first_step("w", Some(WorkflowRunStatus::Completed), true),
        ControlStep::Answer { text } if text == "Workflow run w is already completed."
    ));
    assert!(matches!(
        control_first_step("w", Some(WorkflowRunStatus::Running), false),
        ControlStep::Fail { message } if message == "workflow run w no longer has a live runtime cell"
    ));
    assert!(matches!(
        control_first_step("w", Some(WorkflowRunStatus::Running), true),
        ControlStep::LockAndRecheck
    ));
    assert!(matches!(
        control_recheck_step("w", Some(WorkflowRunStatus::Failed)),
        ControlStep::Answer { text } if text == "Workflow run w is already failed."
    ));
    assert!(matches!(
        control_recheck_step("w", Some(WorkflowRunStatus::Running)),
        ControlStep::StopAgentsAndTerminate
    ));
    assert!(matches!(control_recheck_step("w", None), ControlStep::StopAgentsAndTerminate));
}

#[test]
fn waited_responses_record_progress_or_finish() {
    assert_eq!(plan_waited_cell(CodeCellStatus::Running), WaitedPlan::RecordProgress);
    assert_eq!(plan_waited_cell(CodeCellStatus::Completed), WaitedPlan::FinishRun);
    assert_eq!(plan_waited_cell(CodeCellStatus::Terminated), WaitedPlan::FinishRun);
}

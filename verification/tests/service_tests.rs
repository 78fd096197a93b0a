use codex_workflow::restore::marker_payloads;
use codex_workflow::service::{
    PersistedWorkflowRun, WorkflowAgentVersion, WorkflowOwnedAgent, WorkflowRunSummary,
    WorkflowService, DEFAULT_WORKFLOW_LIST_LIMIT,
};
use codex_workflow::status::{CodeCellStatus, WorkflowRunStatus};

fn registry() -> WorkflowService<String, u32> {
    WorkflowService::new()
}

#[test]
fn registry_tracks_and_updates_workflow_runs() {
    let mut service: WorkflowService<String, u32> = WorkflowService::default();
    let cell_id = "cell-1".to_string();

    let started = service.register(
        "audit".to_string(),
        cell_id.clone(),
        CodeCellStatus::Running,
        "turn-1".to_string(),
        1_000,
        1_000,
        None,
        0,
    );
    assert!(started.id.starts_with("workflow-"));
    assert_eq!(started.status, WorkflowRunStatus::Running);

    service.update_cell(&cell_id, CodeCellStatus::Completed, None, 1_500);
    let runs = service.list(DEFAULT_WORKFLOW_LIST_LIMIT, 2_000);
    assert_eq!(runs.len(), 1);
    assert_eq!(runs[0].status, WorkflowRunStatus::Completed);
    assert_eq!(
        service.run(&started.id).map(|run| run.cell_id),
        Some(cell_id)
    );
}

#[test]
fn registry_lists_newest_runs_in_insertion_order() {
    let mut service: WorkflowService<String, u32> = WorkflowService::default();
    for index in 0..12 {
        service.register(
            format!("run-{index}"),
            format!("cell-{index}"),
            CodeCellStatus::Completed,
            "turn-1".to_string(),
            0,
            0,
            None,
            index,
        );
    }

    assert_eq!(
        service
            .list(3, 0)
            .into_iter()
            .map(|run| run.name)
            .collect::<Vec<_>>(),
        vec!["run-11", "run-10", "run-9"]
    );
}

#[test]
fn run_ids_are_distinct_uuids() {
    let mut service = registry();
    let a = service.register("a".into(), "c-a".into(), CodeCellStatus::Running, "t".into(), 0, 0, None, 0);
    let b = service.register("b".into(), "c-b".into(), CodeCellStatus::Running, "t".into(), 0, 0, None, 1);
    assert_eq!(a.id.len(), 45);
    assert_ne!(a.id, b.id);
}

#[test]
fn registry_keeps_the_newest_sixty_four_runs() {
    let mut service = registry();
    for index in 0..70u32 {
        service.register(
            format!("run-{index}"),
            format!("cell-{index}"),
            CodeCellStatus::Running,
            "turn".to_string(),
            0,
            0,
            None,
            index,
        );
    }
    let runs = service.list(50, 0);
    assert_eq!(runs.len(), 50);
    assert_eq!(runs[0].name, "run-69");
    assert!(service.wait_lock(&"cell-5".to_string()).is_none());
    assert_eq!(service.wait_lock(&"cell-6".to_string()), Some(&6));
    assert_eq!(service.list(100, 0).len(), 50);
}

#[test]
fn elapsed_time_freezes_when_a_run_ends() {
    let mut service = registry();
    let cell = "cell".to_string();
    service.register("a".into(), cell.clone(), CodeCellStatus::Running, "t".into(), 100, 150, None, 0);
    assert_eq!(service.list(1, 400)[0].elapsed_ms, 300);
    let changed = service.update_cell(&cell, CodeCellStatus::Failed, Some("boom".to_string()), 600);
    assert_eq!(changed.map(|h| h.status), Some(WorkflowRunStatus::Failed));
    assert_eq!(service.list(1, 9_000)[0].elapsed_ms, 500);
    assert_eq!(service.update_cell(&cell, CodeCellStatus::Failed, None, 9_000), None);
    assert_eq!(service.list(1, 9_500)[0].elapsed_ms, 500);
    assert_eq!(service.terminal_response(&cell), Some(&"boom".to_string()));
}

#[test]
fn a_run_registered_final_keeps_its_response() {
    let mut service = registry();
    let cell = "cell".to_string();
    let summary = service.register(
        "done".into(),
        cell.clone(),
        CodeCellStatus::Completed,
        "t".into(),
        10,
        35,
        Some("result".to_string()),
        0,
    );
    assert_eq!(summary.elapsed_ms, 25);
    assert_eq!(service.terminal_response(&cell), Some(&"result".to_string()));
    assert_eq!(service.wait_lock(&cell), Some(&0));
    assert_eq!(service.update_cell(&"other".to_string(), CodeCellStatus::Failed, None, 40), None);
}

#[test]
fn persistence_marker_is_one_json_line() {
    let summary = WorkflowRunSummary {
        id: "workflow-1".to_string(),
        name: "say \"hi\"".to_string(),
        cell_id: "7".to_string(),
        status: WorkflowRunStatus::Running,
        elapsed_ms: 3,
    };
    assert_eq!(
        WorkflowService::<String, u32>::persistence_marker(&summary),
        Ok(r#"codex_workflow_run_v1={"id":"workflow-1","name":"say \"hi\"","cell_id":"7","status":"running"}"#.to_string())
    );
}

#[test]
fn persisted_lines_are_found_newest_first() {
    let texts = vec![
        "Managed workflow run a (running).\ncodex_workflow_run_v1={\"id\":\"a\"}\n".to_string(),
        "noise\r\ncodex_workflow_run_v1=first\r\ncodex_workflow_run_v1=second".to_string(),
    ];
    assert_eq!(
        marker_payloads(&texts),
        vec!["second".to_string(), "first".to_string(), "{\"id\":\"a\"}".to_string()]
    );
}

fn record(id: &str, status: WorkflowRunStatus) -> PersistedWorkflowRun {
    PersistedWorkflowRun {
        id: id.to_string(),
        name: format!("name-{id}"),
        cell_id: format!("cell-{id}"),
        status,
    }
}

#[test]
fn restored_runs_are_final_and_deduplicated() {
    let records = vec![
        record("b", WorkflowRunStatus::Running),
        record("a", WorkflowRunStatus::Completed),
        record("b", WorkflowRunStatus::Completed),
    ];
    let service = WorkflowService::<String, u32>::from_persisted_runs(&records);
    let runs = service.list(10, 123);
    assert_eq!(runs.len(), 2);
    assert_eq!(runs[0].id, "b");
    assert_eq!(runs[0].status, WorkflowRunStatus::Terminated);
    assert_eq!(runs[0].elapsed_ms, 0);
    assert_eq!(runs[1].id, "a");
    assert_eq!(runs[1].status, WorkflowRunStatus::Completed);
    assert!(service.wait_lock(&"cell-a".to_string()).is_none());
}

#[test]
fn restore_keeps_at_most_sixty_four_runs() {
    let records: Vec<PersistedWorkflowRun> = (0..80)
        .map(|i| record(&format!("r{i}"), WorkflowRunStatus::Failed))
        .collect();
    let service = WorkflowService::<String, u32>::from_persisted_runs(&records);
    let runs = service.list(50, 0);
    assert_eq!(runs.len(), 50);
    assert_eq!(runs[0].id, "r0");
    assert!(service.run(&"r63".to_string()).is_some());
    assert!(service.run(&"r64".to_string()).is_none());
}

fn agent(id: &str, version: WorkflowAgentVersion) -> WorkflowOwnedAgent {
    WorkflowOwnedAgent { thread_id: id.to_string(), version }
}

#[test]
fn tracked_agents_are_taken_once() {
    let mut service = registry();
    let cell = "cell".to_string();
    service.track_agent(cell.clone(), agent("t1", WorkflowAgentVersion::V1));
    service.track_agent(cell.clone(), agent("t2", WorkflowAgentVersion::V2));
    service.track_agent(cell.clone(), agent("t1", WorkflowAgentVersion::V1));
    assert_eq!(
        service.take_agents(&cell),
        vec![agent("t1", WorkflowAgentVersion::V1), agent("t2", WorkflowAgentVersion::V2)]
    );
    assert!(service.take_agents(&cell).is_empty());
}

#[test]
fn untracked_agents_are_not_taken() {
    let mut service = registry();
    let cell = "cell".to_string();
    service.track_agent(cell.clone(), agent("t1", WorkflowAgentVersion::V1));
    service.track_agent(cell.clone(), agent("t2", WorkflowAgentVersion::V1));
    service.untrack_agent(&cell, &"t1".to_string());
    assert_eq!(service.take_agents(&cell), vec![agent("t2", WorkflowAgentVersion::V1)]);
    service.track_agent(cell.clone(), agent("t3", WorkflowAgentVersion::V1));
    service.untrack_agent(&cell, &"t3".to_string());
    assert!(service.take_agents(&cell).is_empty());
}

#[test]
fn pending_agent_cells_are_bounded() {
    let mut service = registry();
    for i in 0..65 {
        service.track_agent(format!("cell-{i}"), agent("t", WorkflowAgentVersion::V2));
    }
    assert!(service.take_agents(&"cell-0".to_string()).is_empty());
    assert_eq!(service.take_agents(&"cell-1".to_string()).len(), 1);
    assert_eq!(service.take_agents(&"cell-64".to_string()).len(), 1);
}

#[test]
fn status_names_and_finality() {
    assert_eq!(WorkflowRunStatus::Running.as_str(), "running");
    assert_eq!(WorkflowRunStatus::Completed.as_str(), "completed");
    assert_eq!(WorkflowRunStatus::Failed.as_str(), "failed");
    assert_eq!(WorkflowRunStatus::Terminated.as_str(), "terminated");
    assert!(!WorkflowRunStatus::Running.is_terminal());
    assert!(WorkflowRunStatus::Terminated.is_terminal());
    assert_eq!(WorkflowRunStatus::from(CodeCellStatus::Failed), WorkflowRunStatus::Failed);
}

#[test]
fn a_persisted_run_lists_back_terminal() {
    let summary = WorkflowRunSummary {
        id: "workflow-7".to_string(),
        name: "audit".to_string(),
        cell_id: "cell-7".to_string(),
        status: WorkflowRunStatus::Running,
        elapsed_ms: 900,
    };
    let marker = WorkflowService::<String, u32>::persistence_marker(&summary).expect("marker");
    let payloads = marker_payloads(&vec![format!("Managed workflow run workflow-7 (running).\n{marker}\n")]);
    assert_eq!(payloads.len(), 1);
    let value: serde_json::Value = serde_json::from_str(&payloads[0]).expect("json");
    let field = |key: &str| value[key].as_str().expect("string field").to_string();
    assert_eq!(field("status"), "running");
    let record = PersistedWorkflowRun {
        id: field("id"),
        name: field("name"),
        cell_id: field("cell_id"),
        status: WorkflowRunStatus::Running,
    };
    let service = WorkflowService::<String, u32>::from_persisted_runs(&vec![record]);
    assert_eq!(
        service.list(20, 5_000),
        vec![WorkflowRunSummary {
            id: "workflow-7".to_string(),
            name: "audit".to_string(),
            cell_id: "cell-7".to_string(),
            status: WorkflowRunStatus::Terminated,
            elapsed_ms: 0,
        }]
    );
    assert_eq!(service.run(&"workflow-7".to_string()).map(|h| h.origin_sub_id), Some(String::new()));
    assert!(service.wait_lock(&"cell-7".to_string()).is_none());
}

#[test]
fn registered_run_ids_have_the_uuid_form() {
    let mut service = registry();
    let run = service.register("a".into(), "c".into(), CodeCellStatus::Running, "t".into(), 0, 0, None, 0);
    let uuid: Vec<char> = run.id["workflow-".len()..].chars().collect();
    assert_eq!(uuid.len(), 36);
    for (i, c) in uuid.iter().enumerate() {
        if [8, 13, 18, 23].contains(&i) {
            assert_eq!(*c, '-');
        } else {
            assert!(c.is_ascii_digit() || ('a'..='f').contains(c));
        }
    }
}

use codex_workflow::chat::{
    saved_workflow_command, saved_workflow_prompt, ChatEffect, ChatWidget, SavedWorkflow,
    SavedWorkflowCommand, SelectionAction,
};
use codex_workflow::discovery::{collect_saved_workflows, ScannedFile, ScannedRoot};

#[test]
fn saved_workflow_prompt_preserves_user_input_as_structured_args() {
    assert_eq!(
        saved_workflow_prompt(".codex/workflows/audit.ts", Some("src/routes --strict")),
        "Run the saved workflow at `.codex/workflows/audit.ts` with `run_workflow` and \
         wait for it to complete. Pass this user input as structured workflow args: \
         src/routes --strict"
    );
}

#[test]
fn blank_input_is_not_passed_as_args() {
    let expected = "Run the saved workflow at `a.ts` with `run_workflow` and wait for it to complete.";
    assert_eq!(saved_workflow_prompt("a.ts", Some("  \t")), expected);
    assert_eq!(saved_workflow_prompt("a.ts", None), expected);
}

fn file(relative: &str, root: &str) -> ScannedFile {
    ScannedFile {
        relative_path: relative.to_string(),
        absolute_path: format!("{root}/{relative}"),
    }
}

#[test]
fn discovers_javascript_workflows_in_name_order() {
    let root = "/project/.codex/workflows";
    let roots = vec![ScannedRoot {
        is_current_root: true,
        files: vec![file("zeta.js", root), file("alpha.ts", root), file("ignored.md", root)],
    }];

    assert_eq!(
        collect_saved_workflows(&roots),
        vec![
            SavedWorkflow {
                name: "alpha".to_string(),
                path: ".codex/workflows/alpha.ts".into(),
            },
            SavedWorkflow {
                name: "zeta".to_string(),
                path: ".codex/workflows/zeta.js".into(),
            },
        ]
    );
}

#[test]
fn missing_workflow_directory_is_empty() {
    let roots = vec![
        ScannedRoot { is_current_root: true, files: Vec::new() },
        ScannedRoot { is_current_root: false, files: Vec::new() },
    ];
    assert_eq!(collect_saved_workflows(&roots), Vec::new());
}

#[test]
fn nearer_scopes_win_and_other_scopes_show_absolute_paths() {
    let roots = vec![
        ScannedRoot {
            is_current_root: true,
            files: vec![file("audit.ts", "/p/.codex/workflows")],
        },
        ScannedRoot {
            is_current_root: false,
            files: vec![
                file("audit.js", "/.codex/workflows"),
                file("nested/deep.ts", "/.codex/workflows"),
                file(".ts", "/.codex/workflows"),
            ],
        },
    ];
    assert_eq!(
        collect_saved_workflows(&roots),
        vec![
            SavedWorkflow { name: "audit".into(), path: ".codex/workflows/audit.ts".into() },
            SavedWorkflow { name: "nested/deep".into(), path: "/.codex/workflows/nested/deep.ts".into() },
        ]
    );
}

#[test]
fn discovery_stops_at_one_hundred_workflows() {
    let root = "/p/.codex/workflows";
    let files = (0..150).map(|i| file(&format!("w{i:03}.ts"), root)).collect();
    let roots = vec![ScannedRoot { is_current_root: true, files }];
    let found = collect_saved_workflows(&roots);
    assert_eq!(found.len(), 100);
    assert_eq!(found[0].name, "w000");
    assert_eq!(found[99].name, "w099");
}

fn widget() -> ChatWidget {
    ChatWidget {
        current_cwd: None,
        config_cwd: "/config".to_string(),
        codex_home: "/home/.codex".to_string(),
        effects: Vec::new(),
    }
}

fn submitted(chat: &ChatWidget) -> Option<&str> {
    match chat.effects.last() {
        Some(ChatEffect::SubmitUserMessage(text)) => Some(text.as_str()),
        _ => None,
    }
}

#[test]
fn workflows_picker_snapshot() {
    let mut chat = widget();
    chat.open_workflows_menu(vec![
        SavedWorkflow { name: "audit".into(), path: ".codex/workflows/audit.ts".into() },
        SavedWorkflow { name: "review".into(), path: ".codex/workflows/review.js".into() },
    ]);
    assert_eq!(chat.effects.len(), 2);
    assert!(matches!(chat.effects[1], ChatEffect::RequestRedraw));
    let ChatEffect::ShowSelectionView(params) = &chat.effects[0] else {
        panic!("the menu should be shown");
    };
    assert_eq!(params.title.as_deref(), Some("Saved workflows"));
    assert_eq!(
        params.subtitle.as_deref(),
        Some("Inspect managed runs or launch a saved workflow.")
    );
    let names: Vec<&str> = params.items.iter().map(|item| item.name.as_str()).collect();
    assert_eq!(names, vec!["Managed runs", "audit", "review"]);
    assert!(matches!(params.items[0].action, SelectionAction::InspectWorkflowRuns));
    assert_eq!(params.items[2].description.as_deref(), Some(".codex/workflows/review.js"));
    assert!(matches!(
        &params.items[2].action,
        SelectionAction::RunSavedWorkflow { path } if path == ".codex/workflows/review.js"
    ));
    assert!(params.items.iter().all(|item| item.dismiss_on_select));
}

#[test]
fn workflows_command_forms() {
    assert!(matches!(saved_workflow_command("  list "), SavedWorkflowCommand::InspectRuns));
    assert!(matches!(saved_workflow_command("status"), SavedWorkflowCommand::InspectRuns));
    assert!(matches!(
        saved_workflow_command("stop  workflow-1 "),
        SavedWorkflowCommand::Terminate { run_id } if run_id == "workflow-1"
    ));
    assert!(matches!(
        saved_workflow_command("terminate workflow-2"),
        SavedWorkflowCommand::Terminate { run_id } if run_id == "workflow-2"
    ));
    assert!(matches!(saved_workflow_command("   "), SavedWorkflowCommand::OpenMenu));
    assert!(matches!(
        saved_workflow_command("audit src --strict"),
        SavedWorkflowCommand::Launch { name, args: Some(args) } if name == "audit" && args == "src --strict"
    ));
    assert!(matches!(
        saved_workflow_command("stop"),
        SavedWorkflowCommand::Launch { name, args: None } if name == "stop"
    ));
}

#[test]
fn run_saved_workflow_by_name_launches_reports_or_opens_menu() {
    let workflows = vec![SavedWorkflow {
        name: "audit".into(),
        path: ".codex/workflows/audit.ts".into(),
    }];
    let mut chat = widget();
    chat.run_saved_workflow_by_name("audit src", &workflows);
    assert_eq!(
        submitted(&chat),
        Some("Run the saved workflow at `.codex/workflows/audit.ts` with `run_workflow` and wait for it to complete. Pass this user input as structured workflow args: src")
    );
    chat.run_saved_workflow_by_name("missing", &workflows);
    assert!(matches!(
        chat.effects.last(),
        Some(ChatEffect::AddErrorMessage(m))
            if m == "Saved workflow `missing` was not found in project or personal workflow scopes."
    ));
    chat.run_saved_workflow_by_name("stop workflow-9", &workflows);
    assert_eq!(
        submitted(&chat),
        Some("Call `control_workflow` for managed run `workflow-9` with action `terminate`, then report its resulting status.")
    );
    chat.run_saved_workflow_by_name("list", &workflows);
    assert_eq!(
        submitted(&chat),
        Some("Call `list_workflows` and present the managed workflow runs with their IDs, names, statuses, and elapsed times. Do not infer runs from conversation history.")
    );
    let before = chat.effects.len();
    chat.run_saved_workflow_by_name("", &workflows);
    assert_eq!(chat.effects.len(), before + 2);
    assert!(matches!(chat.effects[before], ChatEffect::ShowSelectionView(_)));
}

#[test]
fn workflow_cwd_prefers_the_current_directory() {
    let mut chat = widget();
    assert_eq!(chat.workflow_cwd(), "/config");
    chat.current_cwd = Some("/work".to_string());
    assert_eq!(chat.workflow_cwd(), "/work");
}

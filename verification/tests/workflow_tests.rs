use codex_workflow::compile::{agent_api, compile_program, compile_workflow_source, WorkflowAgentApi};
use codex_workflow::loader::{
    check_workflow_file_size, check_workflow_path, check_workflow_scope, compile_inline_workflow,
    compile_loaded_workflow, is_path_below, metadata_failure_message, read_failure_message,
    resolve_failure_message, workflow_agent_api,
    ToolDefinition, ToolName, WorkflowScope,
};
use codex_workflow::source::parse_workflow_source;
use serde_json::Value;

const SIMPLE_WORKFLOW: &str = r#"
export const meta = {
  name: "simple",
  description: "Return structured input",
};

return { received: args };
"#;

fn value_seven() -> Value {
    let mut object = serde_json::Map::new();
    object.insert("value".to_string(), Value::from(7));
    Value::Object(object)
}

#[test]
fn compile_injects_validated_metadata_args_and_isolated_body() {
    let args = value_seven();
    let compiled = compile_workflow_source(SIMPLE_WORKFLOW, Some(&args), &agent_api())
        .expect("workflow should compile");

    assert!(compiled.contains(r#"const args = {"value":7};"#));
    assert!(compiled.contains(
        r#"const meta = Object.freeze({"description":"Return structured input","name":"simple"});"#
    ));
    assert!(compiled.contains("const __workflowMain = new __AsyncFunction("));
    assert!(compiled.contains("delete globalThis[name]"));
}

#[test]
fn compile_accepts_single_quoted_metadata() {
    let compiled = compile_workflow_source(
        "export const meta = { name: 'single', description: 'Single quoted' };\nreturn 1;",
        None,
        &agent_api(),
    )
    .expect("single-quoted metadata should compile");

    assert!(compiled.contains("const args = undefined;"));
    assert!(compiled.contains(r#""name":"single""#));
}

#[test]
fn compile_rejects_missing_or_empty_metadata() {
    assert_eq!(
        compile_workflow_source("return 1", None, &agent_api()),
        Err("workflow must start with `export const meta = { name, description }`".to_string())
    );
    assert_eq!(
        compile_workflow_source(
            "export const meta = { name: '', description: 'No name' }; return 1;",
            None,
            &agent_api(),
        ),
        Err("workflow metadata name and description must be non-empty".to_string())
    );
}

#[test]
fn inline_workflow_enforces_size_limit() {
    assert!(compile_inline_workflow(SIMPLE_WORKFLOW, None, &agent_api()).is_ok());
    assert_eq!(
        compile_inline_workflow(&"x".repeat(4 * 1024 + 1), None, &agent_api()),
        Err("inline workflow source exceeds the 4096-byte limit; save larger workflows under .codex/workflows".to_string())
    );
}

fn project_scope(project: &str) -> WorkflowScope {
    WorkflowScope {
        directory: Some(project.to_string()),
        codex_root: Some(format!("{project}/.codex")),
        workflow_root: Some(format!("{project}/.codex/workflows")),
    }
}

#[test]
fn loader_restricts_files_to_workflow_directory() {
    let scopes = vec![project_scope("/tmp/root"), project_scope("/tmp"), project_scope("")];
    assert_eq!(check_workflow_path(".codex/workflows/simple.ts"), Ok(()));
    assert_eq!(
        check_workflow_scope("/tmp/root/.codex/workflows/simple.ts", &scopes, None),
        Ok(())
    );
    assert_eq!(check_workflow_path("outside.ts"), Ok(()));
    assert_eq!(
        check_workflow_scope("/tmp/root/outside.ts", &scopes, None),
        Err("workflow path must stay below a project or personal workflows directory".to_string())
    );
    assert_eq!(
        check_workflow_path("../outside.ts"),
        Err("workflow path cannot contain `..`".to_string())
    );
}

#[test]
fn loader_enforces_extension_and_size_limits() {
    assert_eq!(
        check_workflow_path(".codex/workflows/simple.txt"),
        Err("workflow path must end in .ts or .js".to_string())
    );
    assert_eq!(check_workflow_path(".codex/workflows/large.ts"), Ok(()));
    assert_eq!(
        check_workflow_file_size(128 * 1024 + 1),
        Err("workflow file exceeds the 131072-byte limit".to_string())
    );
    assert_eq!(
        compile_loaded_workflow(&"x".repeat(128 * 1024 + 1), None, &agent_api()),
        Err("workflow file exceeds the 131072-byte limit".to_string())
    );
}

#[test]
fn loader_accepts_ancestor_and_personal_workflow_scopes() {
    let scopes = vec![
        WorkflowScope {
            directory: Some("/tmp/root/project/child".to_string()),
            codex_root: None,
            workflow_root: None,
        },
        project_scope("/tmp/root/project"),
        project_scope("/tmp/root"),
    ];
    assert_eq!(
        check_workflow_scope("/tmp/root/project/.codex/workflows/ancestor.ts", &scopes, None),
        Ok(())
    );
    assert_eq!(
        check_workflow_scope(
            "/tmp/personal/workflows/personal.ts",
            &scopes,
            Some("/tmp/personal/workflows"),
        ),
        Ok(())
    );
    assert!(check_workflow_scope("/tmp/personal/workflows/personal.ts", &scopes, None).is_err());
}

#[test]
fn loader_rejects_symlinked_workflow_root_outside_project() {
    let scopes = vec![WorkflowScope {
        directory: Some("/tmp/root".to_string()),
        codex_root: Some("/tmp/root/.codex".to_string()),
        workflow_root: Some("/tmp/outside".to_string()),
    }];
    assert_eq!(
        check_workflow_scope("/tmp/outside/outside.ts", &scopes, None),
        Err("workflow path must stay below a project or personal workflows directory".to_string())
    );
}

#[test]
fn path_below_compares_whole_components() {
    assert!(is_path_below("/a/b/c.ts", "/a/b"));
    assert!(is_path_below("/a/b", "/a/b"));
    assert!(is_path_below("/a/b/c.ts", "/a/b/"));
    assert!(!is_path_below("/a/bc/d.ts", "/a/b"));
    assert!(!is_path_below("/a", "/a/b"));
}

#[test]
fn codex_root_outside_directory_is_rejected() {
    let scopes = vec![WorkflowScope {
        directory: Some("/tmp/root".to_string()),
        codex_root: Some("/elsewhere/.codex".to_string()),
        workflow_root: Some("/elsewhere/.codex/workflows".to_string()),
    }];
    assert!(check_workflow_scope("/elsewhere/.codex/workflows/a.ts", &scopes, None).is_err());
}

#[test]
fn path_rules_reject_parent_segments_anywhere() {
    assert_eq!(
        check_workflow_path(".codex/workflows/../../x.ts"),
        Err("workflow path cannot contain `..`".to_string())
    );
    assert_eq!(check_workflow_path("a..b.js"), Ok(()));
    assert_eq!(
        check_workflow_path(".codex/workflows/noext"),
        Err("workflow path must end in .ts or .js".to_string())
    );
    assert_eq!(check_workflow_file_size(128 * 1024), Ok(()));
    assert_eq!(
        resolve_failure_message("no such file"),
        "failed to resolve workflow path: no such file"
    );
    assert_eq!(metadata_failure_message("e"), "failed to read workflow metadata: e");
    assert_eq!(read_failure_message("e"), "failed to read workflow as UTF-8: e");
}

#[test]
fn parse_splits_body_and_metadata() {
    let (body, meta) = parse_workflow_source(SIMPLE_WORKFLOW).expect("workflow should parse");
    assert_eq!(body, "\n\nreturn { received: args };\n");
    assert_eq!(meta.name, "simple");
    assert_eq!(meta.description, "Return structured input");
}

#[test]
fn parse_reports_each_metadata_error() {
    assert_eq!(
        parse_workflow_source("export const meta { name: 'a', description: 'b' };"),
        Err("workflow metadata must use `export const meta = { ... }`".to_string())
    );
    assert_eq!(
        parse_workflow_source("export const meta = { description: 'b' };"),
        Err("workflow metadata requires a string `name`".to_string())
    );
    assert_eq!(
        parse_workflow_source("export const meta = { name: 'a' };"),
        Err("workflow metadata requires a string `description`".to_string())
    );
    assert_eq!(
        parse_workflow_source("export const meta = { name: 'a', description: 'b' "),
        Err("unterminated workflow metadata object".to_string())
    );
}

#[test]
fn compile_program_quotes_body_as_json_string() {
    let (_, meta) = parse_workflow_source(SIMPLE_WORKFLOW).expect("workflow should parse");
    let program = compile_program("say \"hi\"\n", &meta, None, &agent_api());
    assert!(program.contains(r#""say \"hi\"\n""#));
    assert!(program.contains("const args = undefined;"));
}

fn tool(name: &str, namespace: Option<&str>, model_name: &str) -> ToolDefinition {
    ToolDefinition {
        name: model_name.to_string(),
        tool_name: ToolName {
            name: name.to_string(),
            namespace: namespace.map(|n| n.to_string()),
        },
    }
}

#[test]
fn agent_api_prefers_complete_first_version_tools() {
    let tools = vec![
        tool("spawn_agent", Some("multi_agent_v1"), "multi_agent_v1__spawn_agent"),
        tool("wait_agent", Some("multi_agent_v1"), "multi_agent_v1__wait_agent"),
        tool("close_agent", Some("multi_agent_v1"), "multi_agent_v1__close_agent"),
    ];
    assert_eq!(workflow_agent_api(&tools), Ok(agent_api()));
}

#[test]
fn agent_api_falls_back_to_second_version_tools() {
    let tools = vec![
        tool("spawn_agent", None, "spawn_agent"),
        tool("wait_agent", None, "wait_agent"),
        tool("list_agents", None, "list_agents"),
        tool("interrupt_agent", None, "interrupt_agent"),
        tool("spawn_agent", Some("multi_agent_v1"), "multi_agent_v1__spawn_agent"),
    ];
    assert_eq!(
        workflow_agent_api(&tools),
        Ok(WorkflowAgentApi::V2 {
            spawn_tool: "spawn_agent".to_string(),
            wait_tool: "wait_agent".to_string(),
            list_tool: "list_agents".to_string(),
            interrupt_tool: "interrupt_agent".to_string(),
        })
    );
    assert_eq!(
        workflow_agent_api(&tools[..2]),
        Err("workflow agent helpers require a complete collaboration tool surface".to_string())
    );
}

#[test]
fn single_quoted_header_reads_back() {
    let (body, meta) =
        parse_workflow_source("export const meta={name:'demo',description:'Does {things} // too'}return 1;")
            .expect("header should parse");
    assert_eq!(body, "return 1;");
    assert_eq!(meta.name, "demo");
    assert_eq!(meta.description, "Does {things} // too");
}

#[test]
fn leading_mark_and_whitespace_are_ignored() {
    let source = "export const meta = { name: 'a', description: 'b' };\nreturn 1;";
    let plain = parse_workflow_source(source);
    assert!(plain.is_ok());
    assert_eq!(parse_workflow_source(&format!("\u{feff}{source}")), plain);
    assert_eq!(parse_workflow_source(&format!(" \n\u{3000}{source}")), plain);
    assert_eq!(parse_workflow_source(&format!("\u{feff}\t {source}")), plain);
    assert_eq!(
        parse_workflow_source(&format!("\u{feff}\u{feff}{source}")),
        Err("workflow must start with `export const meta = { name, description }`".to_string())
    );
}

#[test]
fn compile_writes_serde_text_of_args() {
    let mut object = serde_json::Map::new();
    object.insert("files".to_string(), Value::Array(vec![Value::from("a \"b\""), Value::from(2.5)]));
    object.insert("strict".to_string(), Value::Bool(true));
    let args = Value::Object(object);
    let compiled = compile_workflow_source(SIMPLE_WORKFLOW, Some(&args), &agent_api()).expect("compile");
    let text = serde_json::to_string(&args).expect("serialize");
    assert!(compiled.starts_with(&format!("const args = {text};\n")));
}

#[test]
fn program_binds_args_first_and_body_as_json_string() {
    let compiled = compile_workflow_source(SIMPLE_WORKFLOW, None, &agent_api()).expect("compile");
    assert!(compiled.starts_with("const args = undefined;\n"));
    let (body, _) = parse_workflow_source(SIMPLE_WORKFLOW).expect("parse");
    let quoted = serde_json::to_string(body).expect("quote");
    assert!(compiled.contains(&format!("const __workflowBody = {quoted};")));
}

//! Compiling a workflow file into a program for the isolated code-mode runtime.

use vstd::prelude::*;

use crate::json::{json_quote, json_string_literal, json_value_serialized, json_value_text};
use crate::program_text::{
    ARGS_DECL, BODY_DECL, LIST_DECL, LIST_LOOKUP, META_DECL, RUNTIME_BINDINGS, RUNTIME_HELPERS,
    SPAWN_LOOKUP, STOP_LOOKUP, VALIDATED_META_DECL, WAIT_LOOKUP,
};
use crate::source::{parse_workflow_source, parsed_source, WorkflowMeta};

verus! {

/// Stable collaboration tool bindings used by generated workflow programs.
#[derive(Clone, Debug, PartialEq, Eq)]
pub enum WorkflowAgentApi {
    V1 { spawn_tool: String, wait_tool: String, close_tool: String },
    V2 { spawn_tool: String, wait_tool: String, list_tool: String, interrupt_tool: String },
}

/// The version tag the runtime branches on.
pub open spec fn api_version(api: WorkflowAgentApi) -> Seq<char> {
    match api {
        WorkflowAgentApi::V1 { .. } => "v1"@,
        WorkflowAgentApi::V2 { .. } => "v2"@,
    }
}

pub open spec fn api_spawn_tool(api: WorkflowAgentApi) -> Seq<char> {
    match api {
        WorkflowAgentApi::V1 { spawn_tool, .. } => spawn_tool@,
        WorkflowAgentApi::V2 { spawn_tool, .. } => spawn_tool@,
    }
}

pub open spec fn api_wait_tool(api: WorkflowAgentApi) -> Seq<char> {
    match api {
        WorkflowAgentApi::V1 { wait_tool, .. } => wait_tool@,
        WorkflowAgentApi::V2 { wait_tool, .. } => wait_tool@,
    }
}

/// The list tool, which only the second version has.
pub open spec fn api_list_tool(api: WorkflowAgentApi) -> Option<Seq<char>> {
    match api {
        WorkflowAgentApi::V1 { .. } => None,
        WorkflowAgentApi::V2 { list_tool, .. } => Some(list_tool@),
    }
}

/// The tool that stops an agent: closing it in the first version,
/// interrupting it in the second.
pub open spec fn api_stop_tool(api: WorkflowAgentApi) -> Seq<char> {
    match api {
        WorkflowAgentApi::V1 { close_tool, .. } => close_tool@,
        WorkflowAgentApi::V2 { interrupt_tool, .. } => interrupt_tool@,
    }
}

/// The validated metadata as a JSON object, keys in sorted order.
pub open spec fn meta_json(name: Seq<char>, description: Seq<char>) -> Seq<char> {
    "{\"description\":"@ + json_quote(description) + ",\"name\":"@ + json_quote(name) + "}"@
}

/// An optional tool name as JSON: `null` when absent.
pub open spec fn optional_tool_json(tool: Option<Seq<char>>) -> Seq<char> {
    match tool {
        None => "null"@,
        Some(t) => json_quote(t),
    }
}

/// The compiled program: the runtime prelude with the arguments text, the
/// metadata, the body source as a JSON string and the agent tool bindings
/// filled in.
#[verifier::opaque]
pub open spec fn compiled_program(
    args_text: Seq<char>,
    body: Seq<char>,
    name: Seq<char>,
    description: Seq<char>,
    api: WorkflowAgentApi,
) -> Seq<char> {
    let meta = meta_json(name, description);
    let list = optional_tool_json(api_list_tool(api));
    ARGS_DECL@ + args_text + META_DECL@ + meta + VALIDATED_META_DECL@ + meta + BODY_DECL@
        + json_quote(body) + RUNTIME_BINDINGS@ + json_quote(api_version(api)) + SPAWN_LOOKUP@
        + json_quote(api_spawn_tool(api)) + WAIT_LOOKUP@ + json_quote(api_wait_tool(api))
        + LIST_DECL@ + list + LIST_LOOKUP@ + list + STOP_LOOKUP@ + json_quote(api_stop_tool(api))
        + RUNTIME_HELPERS@
}

/// The text that stands for absent arguments.
pub open spec fn args_or_undefined(args_text: Option<Seq<char>>) -> Seq<char> {
    match args_text {
        None => "undefined"@,
        Some(t) => t,
    }
}


/// The JSON object holding the validated metadata.
fn validated_meta_json(meta: &WorkflowMeta) -> (r: String)
    ensures
        r@ == meta_json(meta.name@, meta.description@),
{
    let mut text = String::from_str("{\"description\":");
    text.append(json_string_literal(meta.description.as_str()).as_str());
    text.append(",\"name\":");
    text.append(json_string_literal(meta.name.as_str()).as_str());
    text.append("}");
    text
}

/// The JSON text of an optional tool name.
fn optional_tool_text(tool: Option<&String>) -> (r: String)
    ensures
        r@ == optional_tool_json(
            match tool {
                None => None,
                Some(t) => Some(t@),
            },
        ),
{
    match tool {
        None => String::from_str("null"),
        Some(t) => json_string_literal(t.as_str()),
    }
}

/// Builds the program from an already validated body and metadata and the
/// JSON text of the arguments (`None` when the workflow gets no arguments).
pub fn compile_program(
    body: &str,
    meta: &WorkflowMeta,
    args_text: Option<&str>,
    agent_api: &WorkflowAgentApi,
) -> (r: String)
    ensures
        r@ == compiled_program(
            args_or_undefined(
                match args_text {
                    None => None,
                    Some(t) => Some(t@),
                },
            ),
            body@,
            meta.name@,
            meta.description@,
            *agent_api,
        ),
{
    reveal(compiled_program);
    let args = match args_text {
        None => String::from_str("undefined"),
        Some(t) => String::from_str(t),
    };
    let validated_meta = validated_meta_json(meta);
    let body_json = json_string_literal(body);
    let (version, spawn_tool, wait_tool, list_tool, stop_tool) = match agent_api {
        WorkflowAgentApi::V1 { spawn_tool, wait_tool, close_tool } => (
            "v1",
            spawn_tool,
            wait_tool,
            None,
            close_tool,
        ),
        WorkflowAgentApi::V2 { spawn_tool, wait_tool, list_tool, interrupt_tool } => (
            "v2",
            spawn_tool,
            wait_tool,
            Some(list_tool),
            interrupt_tool,
        ),
    };
    let version_json = json_string_literal(version);
    let spawn_json = json_string_literal(spawn_tool.as_str());
    let wait_json = json_string_literal(wait_tool.as_str());
    let list_json = optional_tool_text(list_tool);
    let stop_json = json_string_literal(stop_tool.as_str());
    let mut program = String::from_str(ARGS_DECL);
    program.append(args.as_str());
    program.append(META_DECL);
    program.append(validated_meta.as_str());
    program.append(VALIDATED_META_DECL);
    program.append(validated_meta.as_str());
    program.append(BODY_DECL);
    program.append(body_json.as_str());
    program.append(RUNTIME_BINDINGS);
    program.append(version_json.as_str());
    program.append(SPAWN_LOOKUP);
    program.append(spawn_json.as_str());
    program.append(WAIT_LOOKUP);
    program.append(wait_json.as_str());
    program.append(LIST_DECL);
    program.append(list_json.as_str());
    program.append(LIST_LOOKUP);
    program.append(list_json.as_str());
    program.append(STOP_LOOKUP);
    program.append(stop_json.as_str());
    program.append(RUNTIME_HELPERS);
    program
}

/// `r` is what compiling `source` with `args` gives: the parser's refusal, or
/// the program around the metadata and body, whose arguments text is
/// `undefined` without arguments and serde_json's text of them otherwise.
/// Writing a JSON value never fails, so a file that parses always compiles.
pub open spec fn compiled_as(
    source: Seq<char>,
    args: Option<&serde_json::Value>,
    api: WorkflowAgentApi,
    r: Result<String, String>,
) -> bool {
    &&& parsed_source(source) matches Err(e) ==> (r matches Err(m) && m@ == e)
    &&& parsed_source(source) matches Ok((body, name, description)) ==> (args is None ==> (
    r matches Ok(p) && p@ == compiled_program("undefined"@, body, name, description, api)))
    &&& parsed_source(source) matches Ok((body, name, description)) ==> (args matches Some(v) ==> (
    r matches Ok(p) && p@ == compiled_program(json_value_serialized(*v), body, name, description, api)))
}

/// Validates a workflow file and wraps its body in the isolated code-mode
/// runtime prelude. Invalid files are refused with the parser's message.
/// The arguments are written into the program as serde_json's compact text
/// of them, or `undefined` when absent.
pub fn compile_workflow_source(
    source: &str,
    args: Option<&serde_json::Value>,
    agent_api: &WorkflowAgentApi,
) -> (r: Result<String, String>)
    ensures
        compiled_as(source@, args, *agent_api, r),
{
    let (body, meta) = match parse_workflow_source(source) {
        Ok(parsed) => parsed,
        Err(e) => return Err(e),
    };
    match args {
        None => Ok(compile_program(body, &meta, None, agent_api)),
        Some(value) => match json_value_text(value) {
            Ok(text) => {
                let program = compile_program(body, &meta, Some(text.as_str()), agent_api);
                assert(program@ == compiled_program(
                    text@,
                    body@,
                    meta.name@,
                    meta.description@,
                    *agent_api,
                ));
                assert(parsed_source(source@) == Ok::<(Seq<char>, Seq<char>, Seq<char>), Seq<char>>(
                    (body@, meta.name@, meta.description@),
                ));

                Ok(program)
            },
            Err(err) => {
                let mut message = String::from_str("failed to serialize workflow args: ");
                message.append(err.as_str());
                Err(message)
            },
        },
    }
}

/// The first-version agent bindings that the test suites of the runtime use.
pub fn agent_api() -> (r: WorkflowAgentApi)
    ensures
        r == (WorkflowAgentApi::V1 {
            spawn_tool: r->V1_spawn_tool,
            wait_tool: r->V1_wait_tool,
            close_tool: r->V1_close_tool,
        }),
        r->V1_spawn_tool@ == "multi_agent_v1__spawn_agent"@,
        r->V1_wait_tool@ == "multi_agent_v1__wait_agent"@,
        r->V1_close_tool@ == "multi_agent_v1__close_agent"@,
{
    WorkflowAgentApi::V1 {
        spawn_tool: String::from_str("multi_agent_v1__spawn_agent"),
        wait_tool: String::from_str("multi_agent_v1__wait_agent"),
        close_tool: String::from_str("multi_agent_v1__close_agent"),
    }
}

} // verus!

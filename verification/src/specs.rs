//! The definitions of the four workflow tools as the model sees them: name,
//! description and the schema of their JSON arguments. Properties are kept
//! in the order of their names, as a sorted map would give them.

use vstd::prelude::*;

use crate::discovery::text_less;
use crate::handlers::{
    CONTROL_WORKFLOW_TOOL_NAME, LIST_WORKFLOWS_TOOL_NAME, RUN_WORKFLOW_TOOL_NAME,
    WAIT_WORKFLOW_TOOL_NAME,
};

verus! {

/// The JSON type of a property; `Unconstrained` leaves it open.
#[derive(Clone, Copy, Debug, PartialEq, Eq, Structural)]
pub enum SchemaKind {
    Unconstrained,
    Str,
    Number,
    Boolean,
}

/// One property of a tool's arguments.
pub struct PropertySchema {
    pub name: String,
    pub kind: SchemaKind,
    pub description: String,
}

impl View for PropertySchema {
    type V = (Seq<char>, SchemaKind, Seq<char>);

    open spec fn view(&self) -> (Seq<char>, SchemaKind, Seq<char>) {
        (self.name@, self.kind, self.description@)
    }
}

/// The object schema of a tool's arguments.
pub struct ToolParameters {
    pub properties: Vec<PropertySchema>,
    pub required: Option<Vec<String>>,
    pub additional_properties: bool,
}

/// A function tool offered to the model.
pub struct WorkflowToolSpec {
    pub name: String,
    pub description: String,
    pub strict: bool,
    pub parameters: ToolParameters,
}

pub open spec fn properties_view(p: Seq<PropertySchema>) -> Seq<(Seq<char>, SchemaKind, Seq<char>)> {
    p.map_values(|q: PropertySchema| q@)
}

pub open spec fn names_view(v: Seq<String>) -> Seq<Seq<char>> {
    v.map_values(|s: String| s@)
}

pub open spec fn required_view(r: Option<Vec<String>>) -> Option<Seq<Seq<char>>> {
    match r {
        Some(v) => Some(names_view(v@)),
        None => None,
    }
}

/// Property names come in strictly increasing order, and every required
/// name is one of them.
pub open spec fn parameters_well_formed(p: ToolParameters) -> bool {
    &&& forall|i: int, j: int|
        0 <= i < j < p.properties@.len() ==> text_less(
            #[trigger] p.properties@[i].name@,
            #[trigger] p.properties@[j].name@,
        )
    &&& match p.required {
        Some(req) => forall|i: int|
            0 <= i < req@.len() ==> exists|j: int|
                0 <= j < p.properties@.len() && #[trigger] p.properties@[j].name@ == #[trigger] req@[i]@,
        None => true,
    }
}

fn property(name: &str, kind: SchemaKind, description: &str) -> (r: PropertySchema)
    ensures
        r@ == (name@, kind, description@),
{
    PropertySchema { name: name.to_string(), kind, description: description.to_string() }
}

/// The definition of `run_workflow`.
pub fn create_run_workflow_tool() -> (r: WorkflowToolSpec)
    ensures
        r.name@ == RUN_WORKFLOW_TOOL_NAME@,
        r.description@ == "Launch a reusable multi-agent workflow from either a JavaScript-compatible TypeScript file under `.codex/workflows/` or ephemeral source. Provide exactly one of `path` or `source`. If this call yields a cell ID, call `wait_workflow` until the run completes."@,
        !r.strict,
        properties_view(r.parameters.properties@) == seq![
            ("args"@, SchemaKind::Unconstrained, "Optional structured JSON value exposed to the workflow as global args."@),
            ("max_output_tokens"@, SchemaKind::Number, "Maximum model-visible output tokens. Defaults to 10000."@),
            ("name"@, SchemaKind::Str, "Optional display name for this managed workflow run."@),
            ("path"@, SchemaKind::Str, "Project-relative .ts or .js file below .codex/workflows/. Mutually exclusive with source."@),
            ("source"@, SchemaKind::Str, "Ephemeral JavaScript-compatible workflow source. Mutually exclusive with path."@),
            ("yield_time_ms"@, SchemaKind::Number, "Initial wait before returning a running cell. Defaults to 1000 ms."@),
        ],
        r.parameters.required is None,
        !r.parameters.additional_properties,
        parameters_well_formed(r.parameters),
{
    let mut properties: Vec<PropertySchema> = Vec::new();
    properties.push(property("args", SchemaKind::Unconstrained, "Optional structured JSON value exposed to the workflow as global args."));
    properties.push(property("max_output_tokens", SchemaKind::Number, "Maximum model-visible output tokens. Defaults to 10000."));
    properties.push(property("name", SchemaKind::Str, "Optional display name for this managed workflow run."));
    properties.push(property("path", SchemaKind::Str, "Project-relative .ts or .js file below .codex/workflows/. Mutually exclusive with source."));
    properties.push(property("source", SchemaKind::Str, "Ephemeral JavaScript-compatible workflow source. Mutually exclusive with path."));
    properties.push(property("yield_time_ms", SchemaKind::Number, "Initial wait before returning a running cell. Defaults to 1000 ms."));
    proof {
        reveal_strlit("args");
        reveal_strlit("max_output_tokens");
        reveal_strlit("name");
        reveal_strlit("path");
        reveal_strlit("source");
        reveal_strlit("yield_time_ms");
        assert(properties_view(properties@) =~= seq![
            ("args"@, SchemaKind::Unconstrained, "Optional structured JSON value exposed to the workflow as global args."@),
            ("max_output_tokens"@, SchemaKind::Number, "Maximum model-visible output tokens. Defaults to 10000."@),
            ("name"@, SchemaKind::Str, "Optional display name for this managed workflow run."@),
            ("path"@, SchemaKind::Str, "Project-relative .ts or .js file below .codex/workflows/. Mutually exclusive with source."@),
            ("source"@, SchemaKind::Str, "Ephemeral JavaScript-compatible workflow source. Mutually exclusive with path."@),
            ("yield_time_ms"@, SchemaKind::Number, "Initial wait before returning a running cell. Defaults to 1000 ms."@),
        ]);
    }
    let parameters = ToolParameters { properties, required: None, additional_properties: false };
    proof {
        lemma_sorted_by_first_char(parameters.properties@);
    }
    WorkflowToolSpec {
        name: RUN_WORKFLOW_TOOL_NAME.to_string(),
        description: "Launch a reusable multi-agent workflow from either a JavaScript-compatible TypeScript file under `.codex/workflows/` or ephemeral source. Provide exactly one of `path` or `source`. If this call yields a cell ID, call `wait_workflow` until the run completes.".to_string(),
        strict: false,
        parameters,
    }
}

/// The definition of `list_workflows`: it takes no arguments.
pub fn create_list_workflows_tool() -> (r: WorkflowToolSpec)
    ensures
        r.name@ == LIST_WORKFLOWS_TOOL_NAME@,
        r.description@ == "List managed workflow runs in this session and their lifecycle status."@,
        !r.strict,
        r.parameters.properties@.len() == 0,
        required_view(r.parameters.required) == Some(Seq::<Seq<char>>::empty()),
        !r.parameters.additional_properties,
        parameters_well_formed(r.parameters),
{
    let required: Vec<String> = Vec::new();
    let parameters = ToolParameters {
        properties: Vec::new(),
        required: Some(required),
        additional_properties: false,
    };
    assert(names_view(required@) =~= Seq::<Seq<char>>::empty());
    WorkflowToolSpec {
        name: LIST_WORKFLOWS_TOOL_NAME.to_string(),
        description: "List managed workflow runs in this session and their lifecycle status.".to_string(),
        strict: false,
        parameters,
    }
}

/// The definition of `control_workflow`.
pub fn create_control_workflow_tool() -> (r: WorkflowToolSpec)
    ensures
        r.name@ == CONTROL_WORKFLOW_TOOL_NAME@,
        r.description@ == "Control a managed workflow run."@,
        !r.strict,
        properties_view(r.parameters.properties@) == seq![
            ("action"@, SchemaKind::Str, "Lifecycle action. Currently supports terminate."@),
            ("run_id"@, SchemaKind::Str, "Managed workflow run identifier."@),
        ],
        required_view(r.parameters.required) == Some(seq!["run_id"@, "action"@]),
        !r.parameters.additional_properties,
        parameters_well_formed(r.parameters),
{
    let mut properties: Vec<PropertySchema> = Vec::new();
    properties.push(property("action", SchemaKind::Str, "Lifecycle action. Currently supports terminate."));
    properties.push(property("run_id", SchemaKind::Str, "Managed workflow run identifier."));
    let mut required: Vec<String> = Vec::new();
    required.push("run_id".to_string());
    required.push("action".to_string());
    proof {
        reveal_strlit("action");
        reveal_strlit("run_id");
        assert(properties_view(properties@) =~= seq![
            ("action"@, SchemaKind::Str, "Lifecycle action. Currently supports terminate."@),
            ("run_id"@, SchemaKind::Str, "Managed workflow run identifier."@),
        ]);
        assert(names_view(required@) =~= seq!["run_id"@, "action"@]);
        assert(properties@[1].name@ == required@[0]@);
        assert(properties@[0].name@ == required@[1]@);
    }
    let parameters = ToolParameters {
        properties,
        required: Some(required),
        additional_properties: false,
    };
    proof {
        lemma_sorted_by_first_char(parameters.properties@);
    }
    WorkflowToolSpec {
        name: CONTROL_WORKFLOW_TOOL_NAME.to_string(),
        description: "Control a managed workflow run.".to_string(),
        strict: false,
        parameters,
    }
}

/// The definition of `wait_workflow`.
pub fn create_wait_workflow_tool() -> (r: WorkflowToolSpec)
    ensures
        r.name@ == WAIT_WORKFLOW_TOOL_NAME@,
        r.description@ == "Wait for a yielded run_workflow cell or terminate it."@,
        !r.strict,
        properties_view(r.parameters.properties@) == seq![
            ("cell_id"@, SchemaKind::Str, "Running workflow cell identifier."@),
            ("max_tokens"@, SchemaKind::Number, "Maximum model-visible output tokens. Defaults to 10000."@),
            ("terminate"@, SchemaKind::Boolean, "Stop the workflow cell instead of waiting when true."@),
            ("yield_time_ms"@, SchemaKind::Number, "Wait before yielding more output. Defaults to 10000 ms."@),
        ],
        required_view(r.parameters.required) == Some(seq!["cell_id"@]),
        !r.parameters.additional_properties,
        parameters_well_formed(r.parameters),
{
    let mut properties: Vec<PropertySchema> = Vec::new();
    properties.push(property("cell_id", SchemaKind::Str, "Running workflow cell identifier."));
    properties.push(property("max_tokens", SchemaKind::Number, "Maximum model-visible output tokens. Defaults to 10000."));
    properties.push(property("terminate", SchemaKind::Boolean, "Stop the workflow cell instead of waiting when true."));
    properties.push(property("yield_time_ms", SchemaKind::Number, "Wait before yielding more output. Defaults to 10000 ms."));
    let mut required: Vec<String> = Vec::new();
    required.push("cell_id".to_string());
    proof {
        reveal_strlit("cell_id");
        reveal_strlit("max_tokens");
        reveal_strlit("terminate");
        reveal_strlit("yield_time_ms");
        assert(properties_view(properties@) =~= seq![
            ("cell_id"@, SchemaKind::Str, "Running workflow cell identifier."@),
            ("max_tokens"@, SchemaKind::Number, "Maximum model-visible output tokens. Defaults to 10000."@),
            ("terminate"@, SchemaKind::Boolean, "Stop the workflow cell instead of waiting when true."@),
            ("yield_time_ms"@, SchemaKind::Number, "Wait before yielding more output. Defaults to 10000 ms."@),
        ]);
        assert(names_view(required@) =~= seq!["cell_id"@]);
        assert(properties@[0].name@ == required@[0]@);
    }
    let parameters = ToolParameters {
        properties,
        required: Some(required),
        additional_properties: false,
    };
    proof {
        lemma_sorted_by_first_char(parameters.properties@);
    }
    WorkflowToolSpec {
        name: WAIT_WORKFLOW_TOOL_NAME.to_string(),
        description: "Wait for a yielded run_workflow cell or terminate it.".to_string(),
        strict: false,
        parameters,
    }
}

/// Names that are non-empty and whose first characters increase are sorted.
proof fn lemma_sorted_by_first_char(p: Seq<PropertySchema>)
    requires
        forall|i: int| 0 <= i < p.len() ==> #[trigger] p[i].name@.len() > 0,
        forall|i: int, j: int|
            0 <= i < j < p.len() ==> (#[trigger] p[i].name@[0] as u32) < (
            #[trigger] p[j].name@[0] as u32),
    ensures
        forall|i: int, j: int|
            0 <= i < j < p.len() ==> text_less(#[trigger] p[i].name@, #[trigger] p[j].name@),
{
    assert forall|i: int, j: int| 0 <= i < j < p.len() implies text_less(
        #[trigger] p[i].name@,
        #[trigger] p[j].name@,
    ) by {
        let a = p[i].name@;
        let b = p[j].name@;
        assert(a[0] != b[0]);
    }
}

} // verus!

//! Turning a `run_workflow` request into a program: size limits, the
//! workflow path rules, and the choice of collaboration tools for the agent
//! helpers.

use vstd::prelude::*;

use crate::compile::{compile_workflow_source, WorkflowAgentApi};
use crate::text::chars_of;
use vstd::string::StringSliceAdditionalSpecFns;

verus! {

/// Largest workflow file, in bytes.
pub const MAX_WORKFLOW_BYTES: u64 = 131072;

/// Largest inline workflow source, in bytes.
pub const MAX_INLINE_WORKFLOW_BYTES: usize = 4096;

pub open spec fn msg_inline_too_large() -> Seq<char> {
    "inline workflow source exceeds the 4096-byte limit; save larger workflows under .codex/workflows"@
}

pub open spec fn msg_file_too_large() -> Seq<char> {
    "workflow file exceeds the 131072-byte limit"@
}

pub open spec fn msg_parent_dir() -> Seq<char> {
    "workflow path cannot contain `..`"@
}

pub open spec fn msg_extension() -> Seq<char> {
    "workflow path must end in .ts or .js"@
}

pub open spec fn msg_incomplete_tools() -> Seq<char> {
    "workflow agent helpers require a complete collaboration tool surface"@
}

/// Compiles ephemeral workflow source given inline, which must fit in
/// `MAX_INLINE_WORKFLOW_BYTES` bytes of UTF-8.
pub fn compile_inline_workflow(
    source: &str,
    args: Option<&serde_json::Value>,
    agent_api: &WorkflowAgentApi,
) -> (r: Result<String, String>)
    ensures
        source.spec_bytes().len() > MAX_INLINE_WORKFLOW_BYTES ==> (r matches Err(m) && m@
            == msg_inline_too_large()),
        source.spec_bytes().len() <= MAX_INLINE_WORKFLOW_BYTES ==> crate::compile::compiled_as(
            source@,
            args,
            *agent_api,
            r,
        ),
{
    if source.as_bytes().len() > MAX_INLINE_WORKFLOW_BYTES {
        return Err(
            String::from_str(
                "inline workflow source exceeds the 4096-byte limit; save larger workflows under .codex/workflows",
            ),
        );
    }
    compile_workflow_source(source, args, agent_api)
}

/// A workflow file whose size the file system reports as `size` bytes may
/// be read only if it fits in `MAX_WORKFLOW_BYTES`.
pub fn check_workflow_file_size(size: u64) -> (r: Result<(), String>)
    ensures
        r is Ok <==> size <= MAX_WORKFLOW_BYTES,
        r matches Err(m) ==> m@ == msg_file_too_large(),
{
    if size > MAX_WORKFLOW_BYTES {
        return Err(String::from_str("workflow file exceeds the 131072-byte limit"));
    }
    Ok(())
}

/// Compiles the text read from a workflow file, which must still fit in
/// `MAX_WORKFLOW_BYTES` bytes.
pub fn compile_loaded_workflow(
    source: &str,
    args: Option<&serde_json::Value>,
    agent_api: &WorkflowAgentApi,
) -> (r: Result<String, String>)
    ensures
        source.spec_bytes().len() > MAX_WORKFLOW_BYTES ==> (r matches Err(m) && m@
            == msg_file_too_large()),
        source.spec_bytes().len() <= MAX_WORKFLOW_BYTES ==> crate::compile::compiled_as(
            source@,
            args,
            *agent_api,
            r,
        ),
{
    let len = source.as_bytes().len();
    if len as u64 > MAX_WORKFLOW_BYTES {
        return Err(String::from_str("workflow file exceeds the 131072-byte limit"));
    }
    compile_workflow_source(source, args, agent_api)
}

/// Where the `/`-separated segment that ends at `j` starts.
pub open spec fn segment_start(p: Seq<char>, j: int) -> int
    decreases j,
{
    if j <= 0 || j > p.len() {
        0
    } else if p[j - 1] == '/' {
        j
    } else {
        segment_start(p, j - 1)
    }
}

pub proof fn lemma_segment_start(p: Seq<char>, j: int)
    requires
        0 <= j <= p.len(),
    ensures
        0 <= segment_start(p, j) <= j,
        segment_start(p, j) > 0 ==> p[segment_start(p, j) - 1] == '/',
        forall|m: int| segment_start(p, j) <= m < j ==> p[m] != '/',
    decreases j,
{
    if j > 0 && p[j - 1] != '/' {
        lemma_segment_start(p, j - 1);
    }
}

/// Whether one of the segments of `p[..j]` is `..`.
pub open spec fn has_parent_segment(p: Seq<char>, j: int) -> bool
    decreases j,
{
    if j < 0 || j > p.len() {
        false
    } else {
        let k = segment_start(p, j);
        if p.subrange(k, j) == ".."@ {
            true
        } else if k == 0 {
            false
        } else {
            proof {
                lemma_segment_start(p, j);
            }
            has_parent_segment(p, k - 1)
        }
    }
}

/// The file name of the path `p[..j]` as `Path::file_name` reads it: its
/// last segment that is neither empty nor `.`, unless that segment is `..`.
pub open spec fn file_name_of(p: Seq<char>, j: int) -> Option<Seq<char>>
    decreases j,
{
    if j < 0 || j > p.len() {
        None
    } else {
        let k = segment_start(p, j);
        let seg = p.subrange(k, j);
        if seg.len() > 0 && seg != "."@ {
            if seg == ".."@ {
                None
            } else {
                Some(seg)
            }
        } else if k == 0 {
            None
        } else {
            proof {
                lemma_segment_start(p, j);
            }
            file_name_of(p, k - 1)
        }
    }
}

/// The file name has the extension `ts` or `js`, as `Path::extension`
/// reads it: the part after its last dot, with something before the dot.
pub open spec fn has_script_extension(p: Seq<char>) -> bool {
    match file_name_of(p, p.len() as int) {
        None => false,
        Some(f) => {
            &&& f.len() > 3
            &&& f[f.len() - 3] == '.'
            &&& (f[f.len() - 2] == 't' || f[f.len() - 2] == 'j')
            &&& f[f.len() - 1] == 's'
        },
    }
}

/// The rules a requested workflow path must meet before it is resolved: no
/// `..` segment, and a `.ts` or `.js` file name.
pub open spec fn path_check(p: Seq<char>) -> Result<(), Seq<char>> {
    if has_parent_segment(p, p.len() as int) {
        Err(msg_parent_dir())
    } else if !has_script_extension(p) {
        Err(msg_extension())
    } else {
        Ok(())
    }
}

pub open spec fn msg_outside_roots() -> Seq<char> {
    "workflow path must stay below a project or personal workflows directory"@
}

/// `path` lies at or below `base`, comparing whole `/`-separated components.
pub open spec fn path_below(path: Seq<char>, base: Seq<char>) -> bool {
    &&& base.len() <= path.len()
    &&& path.subrange(0, base.len() as int) == base
    &&& (path.len() == base.len() || (base.len() > 0 && base.last() == '/') || path[base.len() as int]
        == '/')
}

/// The canonical forms of one directory on the way up from the working
/// directory: the directory, its `.codex` and its `.codex/workflows`, each
/// absent when it could not be resolved.
pub struct WorkflowScope {
    pub directory: Option<String>,
    pub codex_root: Option<String>,
    pub workflow_root: Option<String>,
}

/// A scope accepts a canonical candidate when its `.codex` stays inside the
/// directory, its workflows directory inside that `.codex`, and the
/// candidate inside the workflows directory.
pub open spec fn scope_accepts(scope: WorkflowScope, candidate: Seq<char>) -> bool {
    match (scope.directory, scope.codex_root, scope.workflow_root) {
        (Some(d), Some(c), Some(w)) => path_below(c@, d@) && path_below(w@, c@) && path_below(
            candidate,
            w@,
        ),
        _ => false,
    }
}

/// A canonical workflow path is accepted below some project scope, or below
/// the personal workflows directory.
pub open spec fn candidate_accepted(
    candidate: Seq<char>,
    scopes: Seq<WorkflowScope>,
    personal_root: Option<Seq<char>>,
) -> bool {
    ||| exists|i: int| 0 <= i < scopes.len() && scope_accepts(#[trigger] scopes[i], candidate)
    ||| (personal_root matches Some(p) && path_below(candidate, p))
}

/// Whether `path` lies at or below `base`.
pub fn is_path_below(path: &str, base: &str) -> (r: bool)
    ensures
        r == path_below(path@, base@),
{
    let p = chars_of(path);
    let b = chars_of(base);
    if b.len() > p.len() {
        return false;
    }
    let mut i: usize = 0;
    while i < b.len()
        invariant
            p@ == path@,
            b@ == base@,
            b@.len() <= p@.len(),
            0 <= i <= b@.len(),
            forall|m: int| 0 <= m < i ==> p@[m] == b@[m],
        decreases b@.len() - i,
    {
        if p[i] != b[i] {
            assert(p@.subrange(0, b@.len() as int)[i as int] != b@[i as int]);
            return false;
        }
        i = i + 1;
    }
    assert(p@.subrange(0, b@.len() as int) =~= b@);
    p.len() == b.len() || (b.len() > 0 && b[b.len() - 1] == '/') || p[b.len()] == '/'
}

fn scope_accepts_exec(scope: &WorkflowScope, candidate: &str) -> (r: bool)
    ensures
        r == scope_accepts(*scope, candidate@),
{
    match (&scope.directory, &scope.codex_root, &scope.workflow_root) {
        (Some(d), Some(c), Some(w)) => is_path_below(c.as_str(), d.as_str()) && is_path_below(
            w.as_str(),
            c.as_str(),
        ) && is_path_below(candidate, w.as_str()),
        _ => false,
    }
}

/// Decides whether a resolved workflow file may run: it must lie below the
/// workflows directory of the working directory or of one of its ancestors
/// (`scopes`, nearest first, canonicalized), or below the personal workflows
/// directory.
pub fn check_workflow_scope(
    candidate: &str,
    scopes: &Vec<WorkflowScope>,
    personal_root: Option<&str>,
) -> (r: Result<(), String>)
    ensures
        r is Ok <==> candidate_accepted(
            candidate@,
            scopes@,
            match personal_root {
                Some(p) => Some(p@),
                None => None,
            },
        ),
        r matches Err(m) ==> m@ == msg_outside_roots(),
{
    let mut i: usize = 0;
    while i < scopes.len()
        invariant
            0 <= i <= scopes@.len(),
            forall|m: int| 0 <= m < i ==> !scope_accepts(#[trigger] scopes@[m], candidate@),
        decreases scopes@.len() - i,
    {
        if scope_accepts_exec(&scopes[i], candidate) {
            return Ok(());
        }
        i = i + 1;
    }
    if let Some(p) = personal_root {
        if is_path_below(candidate, p) {
            return Ok(());
        }
    }
    Err(String::from_str("workflow path must stay below a project or personal workflows directory"))
}

/// The error for a workflow path that could not be resolved.
pub fn resolve_failure_message(error: &str) -> (r: String)
    ensures
        r@ == "failed to resolve workflow path: "@ + error@,
{
    let mut text = String::from_str("failed to resolve workflow path: ");
    text.append(error);
    text
}

/// The error when a workflow file's metadata cannot be read.
pub fn metadata_failure_message(error: &str) -> (r: String)
    ensures
        r@ == "failed to read workflow metadata: "@ + error@,
{
    let mut text = String::from_str("failed to read workflow metadata: ");
    text.append(error);
    text
}

/// The error when a workflow file cannot be read as UTF-8 text.
pub fn read_failure_message(error: &str) -> (r: String)
    ensures
        r@ == "failed to read workflow as UTF-8: "@ + error@,
{
    let mut text = String::from_str("failed to read workflow as UTF-8: ");
    text.append(error);
    text
}

/// Whether `p[from..to]` is `..` or `.`.
fn is_dots(p: &[char], from: usize, to: usize, count: usize) -> (r: bool)
    requires
        from <= to <= p@.len(),
        count == 1 || count == 2,
    ensures
        count == 2 ==> (r == (p@.subrange(from as int, to as int) == ".."@)),
        count == 1 ==> (r == (p@.subrange(from as int, to as int) == "."@)),
{
    proof {
        reveal_strlit("..");
        reveal_strlit(".");
    }
    if to - from != count {
        assert(p@.subrange(from as int, to as int).len() != ".."@.len() || count == 1);
        assert(p@.subrange(from as int, to as int).len() != "."@.len() || count == 2);
        return false;
    }
    let r = if count == 2 {
        p[from] == '.' && p[from + 1] == '.'
    } else {
        p[from] == '.'
    };
    proof {
        if count == 2 && r {
            assert(p@.subrange(from as int, to as int) =~= ".."@);
        }
        if count == 1 && r {
            assert(p@.subrange(from as int, to as int) =~= "."@);
        }
        if count == 2 && !r {
            assert(p@.subrange(from as int, to as int) != ".."@) by {
                if p@.subrange(from as int, to as int) == ".."@ {
                    assert(p@.subrange(from as int, to as int)[0] == '.');
                    assert(p@.subrange(from as int, to as int)[1] == '.');
                }
            }
        }
        if count == 1 && !r {
            assert(p@.subrange(from as int, to as int) != "."@) by {
                if p@.subrange(from as int, to as int) == "."@ {
                    assert(p@.subrange(from as int, to as int)[0] == '.');
                }
            }
        }
    }
    r
}

/// The start of the segment ending at `j`.
fn segment_start_exec(p: &[char], j: usize) -> (r: usize)
    requires
        j <= p@.len(),
    ensures
        r == segment_start(p@, j as int),
        r <= j,
{
    let mut k = j;
    while k > 0 && p[k - 1] != '/'
        invariant
            k <= j <= p@.len(),
            segment_start(p@, k as int) == segment_start(p@, j as int),
        decreases k,
    {
        k = k - 1;
    }
    k
}

/// Checks a requested workflow path against the path rules.
pub fn check_workflow_path(relative_path: &str) -> (r: Result<(), String>)
    ensures
        match path_check(relative_path@) {
            Ok(()) => r is Ok,
            Err(e) => r matches Err(m) && m@ == e,
        },
{
    let chars = chars_of(relative_path);
    let p = chars.as_slice();
    let n = p.len();
    let mut j = n;
    loop
        invariant
            n == p@.len(),
            p@ == relative_path@,
            j <= n,
            has_parent_segment(p@, n as int) == has_parent_segment(p@, j as int),
        ensures
            !has_parent_segment(p@, n as int),
        decreases j,
    {
        let k = segment_start_exec(p, j);
        if is_dots(p, k, j, 2) {
            assert(has_parent_segment(p@, j as int));
            return Err(String::from_str("workflow path cannot contain `..`"));
        }
        if k == 0 {
            assert(!has_parent_segment(p@, j as int));
            break;
        }
        proof {
            lemma_segment_start(p@, j as int);
        }
        j = k - 1;
    }
    let mut j = n;
    let mut name: Option<(usize, usize)> = None;
    loop
        invariant
            n == p@.len(),
            p@ == relative_path@,
            j <= n,
            name is None ==> file_name_of(p@, n as int) == file_name_of(p@, j as int),
            name matches Some((a, b)) ==> a <= b <= n && file_name_of(p@, n as int) == Some(
                p@.subrange(a as int, b as int),
            ),
        ensures
            name is None ==> file_name_of(p@, n as int) is None,
            name matches Some((a, b)) ==> a <= b <= n && file_name_of(p@, n as int) == Some(
                p@.subrange(a as int, b as int),
            ),
        decreases j + (if name is None { 1int } else { 0int }),
    {
        if name.is_some() {
            break;
        }
        let k = segment_start_exec(p, j);
        if j > k && !is_dots(p, k, j, 1) {
            if is_dots(p, k, j, 2) {
                assert(file_name_of(p@, j as int) is None);
                break;
            }
            name = Some((k, j));
        } else {
            if k == 0 {
                assert(file_name_of(p@, j as int) is None);
                break;
            }
            proof {
                lemma_segment_start(p@, j as int);
            }
            j = k - 1;
        }
    }
    match name {
        None => Err(String::from_str("workflow path must end in .ts or .js")),
        Some((a, b)) => {
            let f = b - a;
            if f > 3 && p[b - 3] == '.' && (p[b - 2] == 't' || p[b - 2] == 'j') && p[b - 1] == 's' {
                Ok(())
            } else {
                Err(String::from_str("workflow path must end in .ts or .js"))
            }
        },
    }
}

/// A qualified tool name.
pub struct ToolName {
    pub name: String,
    pub namespace: Option<String>,
}

/// A tool a code-mode cell can call: the name it is called by, and the tool
/// it stands for.
pub struct ToolDefinition {
    pub name: String,
    pub tool_name: ToolName,
}

/// The tool belongs to the first-version collaboration namespace.
pub open spec fn in_v1_namespace(t: ToolDefinition) -> bool {
    t.tool_name.namespace matches Some(ns) && ns@ == "multi_agent_v1"@
}

/// The first tool, from `i`, for `name` inside (or, with `v1` false, outside)
/// the first-version namespace.
pub open spec fn first_tool_from(tools: Seq<ToolDefinition>, name: Seq<char>, v1: bool, i: int) -> Option<
    int,
>
    decreases tools.len() - i,
{
    if i < 0 || i >= tools.len() {
        None
    } else if tools[i].tool_name.name@ == name && in_v1_namespace(tools[i]) == v1 {
        Some(i)
    } else {
        first_tool_from(tools, name, v1, i + 1)
    }
}

pub open spec fn first_tool(tools: Seq<ToolDefinition>, name: Seq<char>, v1: bool) -> Option<int> {
    first_tool_from(tools, name, v1, 0)
}

pub proof fn lemma_first_tool_from(tools: Seq<ToolDefinition>, name: Seq<char>, v1: bool, i: int)
    requires
        0 <= i,
    ensures
        first_tool_from(tools, name, v1, i) matches Some(k) ==> i <= k < tools.len(),
    decreases tools.len() - i,
{
    if i < tools.len() && !(tools[i].tool_name.name@ == name && in_v1_namespace(tools[i]) == v1) {
        lemma_first_tool_from(tools, name, v1, i + 1);
    }
}

/// The tool names the agent helpers use: the first-version spawn, wait and
/// close tools when all three are there; otherwise the spawn, wait, list and
/// interrupt tools outside that namespace when all four are there.
pub open spec fn agent_api_choice(tools: Seq<ToolDefinition>) -> Result<Seq<Seq<char>>, Seq<char>> {
    match (
        first_tool(tools, "spawn_agent"@, true),
        first_tool(tools, "wait_agent"@, true),
        first_tool(tools, "close_agent"@, true),
    ) {
        (Some(a), Some(b), Some(c)) => Ok(seq![tools[a].name@, tools[b].name@, tools[c].name@]),
        _ => match (
            first_tool(tools, "spawn_agent"@, false),
            first_tool(tools, "wait_agent"@, false),
            first_tool(tools, "list_agents"@, false),
            first_tool(tools, "interrupt_agent"@, false),
        ) {
            (Some(a), Some(b), Some(c), Some(d)) => Ok(
                seq![tools[a].name@, tools[b].name@, tools[c].name@, tools[d].name@],
            ),
            _ => Err(msg_incomplete_tools()),
        },
    }
}

/// The tool names of an agent API, in the order `agent_api_choice` lists them.
pub open spec fn api_tool_names(api: WorkflowAgentApi) -> Seq<Seq<char>> {
    match api {
        WorkflowAgentApi::V1 { spawn_tool, wait_tool, close_tool } => seq![
            spawn_tool@,
            wait_tool@,
            close_tool@,
        ],
        WorkflowAgentApi::V2 { spawn_tool, wait_tool, list_tool, interrupt_tool } => seq![
            spawn_tool@,
            wait_tool@,
            list_tool@,
            interrupt_tool@,
        ],
    }
}

fn is_v1_namespace(t: &ToolDefinition) -> (r: bool)
    ensures
        r == in_v1_namespace(*t),
{
    match &t.tool_name.namespace {
        Some(ns) => crate::trim::same_text(ns.as_str(), "multi_agent_v1"),
        None => false,
    }
}

/// The calling name of the first tool for `name` in or outside the
/// first-version namespace.
fn find_tool(tools: &[ToolDefinition], name: &str, v1: bool) -> (r: Option<String>)
    ensures
        match first_tool(tools@, name@, v1) {
            None => r is None,
            Some(k) => r matches Some(n) && n@ == tools@[k].name@,
        },
{
    let mut i: usize = 0;
    while i < tools.len()
        invariant
            0 <= i <= tools@.len(),
            first_tool_from(tools@, name@, v1, i as int) == first_tool(tools@, name@, v1),
        decreases tools@.len() - i,
    {
        if crate::trim::same_text(tools[i].tool_name.name.as_str(), name) && is_v1_namespace(
            &tools[i],
        ) == v1 {
            return Some(tools[i].name.clone());
        }
        i = i + 1;
    }
    None
}

/// Chooses the collaboration tools the agent helpers of a workflow call.
pub fn workflow_agent_api(tools: &[ToolDefinition]) -> (r: Result<WorkflowAgentApi, String>)
    ensures
        match agent_api_choice(tools@) {
            Ok(names) => r matches Ok(api) && api_tool_names(api) == names,
            Err(e) => r matches Err(m) && m@ == e,
        },
{
    proof {
        lemma_first_tool_from(tools@, "spawn_agent"@, true, 0);
        lemma_first_tool_from(tools@, "wait_agent"@, true, 0);
        lemma_first_tool_from(tools@, "close_agent"@, true, 0);
        lemma_first_tool_from(tools@, "spawn_agent"@, false, 0);
        lemma_first_tool_from(tools@, "wait_agent"@, false, 0);
        lemma_first_tool_from(tools@, "list_agents"@, false, 0);
        lemma_first_tool_from(tools@, "interrupt_agent"@, false, 0);
    }
    let spawn = find_tool(tools, "spawn_agent", true);
    let wait = find_tool(tools, "wait_agent", true);
    let close = find_tool(tools, "close_agent", true);
    if let (Some(spawn_tool), Some(wait_tool), Some(close_tool)) = (spawn, wait, close) {
        let api = WorkflowAgentApi::V1 { spawn_tool, wait_tool, close_tool };
        assert(api_tool_names(api) =~= agent_api_choice(tools@)->Ok_0);
        return Ok(api);
    }
    let spawn = find_tool(tools, "spawn_agent", false);
    let wait = find_tool(tools, "wait_agent", false);
    let list = find_tool(tools, "list_agents", false);
    let interrupt = find_tool(tools, "interrupt_agent", false);
    match (spawn, wait, list, interrupt) {
        (Some(spawn_tool), Some(wait_tool), Some(list_tool), Some(interrupt_tool)) => {
            let api = WorkflowAgentApi::V2 { spawn_tool, wait_tool, list_tool, interrupt_tool };
            assert(api_tool_names(api) =~= agent_api_choice(tools@)->Ok_0);
            Ok(api)
        },
        _ => Err(
            String::from_str("workflow agent helpers require a complete collaboration tool surface"),
        ),
    }
}

} // verus!

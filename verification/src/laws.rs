//! Properties that span several operations of the library, stated over the
//! spec functions that the operations' contracts use.

use vstd::prelude::*;

use crate::compile::{
    api_list_tool, api_spawn_tool, api_stop_tool, api_version, api_wait_tool, compiled_as,
    compiled_program, meta_json, optional_tool_json, WorkflowAgentApi,
};
use crate::handlers::run_header;
use crate::json::{hex_digit, json_escape, json_escape_char, json_quote};
use crate::program_text::{
    ARGS_DECL, BODY_DECL, LIST_DECL, LIST_LOOKUP, META_DECL, RUNTIME_BINDINGS, RUNTIME_HELPERS,
    SPAWN_LOOKUP, STOP_LOOKUP, VALIDATED_META_DECL, WAIT_LOOKUP,
};
use crate::properties::{
    ascii_ws_end, decoded_string, ident_end, property_from, property_in, property_value,
    unescape_contents,
};
use crate::restore::{
    lines_from, marker_payload, payloads_last_first, run_marker_payloads, strip_cr, text_lines,
};
use crate::scan::{is_quote, lemma_object_end, object_end, object_end_from, string_close_from};
use crate::service::{
    accepted_records, agents_entry, agents_entry_from, distinct_agent_cells, has_agent,
    has_record_id, is_restored_run, is_updated_run, lemma_agents_entry_from, lemma_lock_entry_from,
    lock_entry, persisted_json, persisted_line, restored_status, same_agent, summarizes,
    tracked_entries, without_agents_entry, without_thread, CellAgents, CellWaitLock,
    PersistedWorkflowRun, WorkflowOwnedAgent, WorkflowRun, WorkflowRunSummary,
    MAX_PENDING_WORKFLOW_CELLS, MAX_RETAINED_WORKFLOW_RUNS, WORKFLOW_RUN_MARKER,
};
use crate::source::{
    all_ws, body_start, first_at_or_after, lemma_first_at_or_after, lemma_ws_end, parsed_source,
    text_start, ws_end, META_PREFIX,
};
use crate::status::{run_status_of, status_name, CodeCellStatus, WorkflowRunStatus};
use crate::discovery::text_less;
use crate::loader::{
    agent_api_choice, candidate_accepted, first_tool, first_tool_from, scope_accepts, ToolDefinition,
    WorkflowScope,
};
use crate::watcher::{next_watch_step, WatchEvent, WatchStep};
use crate::text::{is_ascii_alpha, is_ascii_ws, is_ident_continue, is_unicode_ws};

verus! {

proof fn lemma_escape_char_has_no_newline(c: char)
    ensures
        forall|i: int| 0 <= i < json_escape_char(c).len() ==> #[trigger] json_escape_char(c)[i] != '\n',
{
    if (c as u32) < 0x20 && c != '"' && c != '\\' && c != '\x08' && c != '\t' && c != '\n' && c
        != '\x0C' && c != '\r' {
        let hi = (c as u32) / 16;
        let lo = (c as u32) % 16;
        assert(hex_digit(hi) != '\n');
        assert(hex_digit(lo) != '\n');
    }
}

proof fn lemma_escape_has_no_newline(s: Seq<char>)
    ensures
        forall|i: int| 0 <= i < json_escape(s).len() ==> #[trigger] json_escape(s)[i] != '\n',
    decreases s.len(),
{
    if s.len() > 0 {
        lemma_escape_has_no_newline(s.drop_last());
        lemma_escape_char_has_no_newline(s.last());
        let a = json_escape(s.drop_last());
        let b = json_escape_char(s.last());
        assert forall|i: int| 0 <= i < json_escape(s).len() implies #[trigger] json_escape(s)[i]
            != '\n' by {
            if i < a.len() {
                assert(json_escape(s)[i] == a[i]);
            } else {
                assert(json_escape(s)[i] == b[i - a.len()]);
            }
        }
    }
}

proof fn lemma_quote_has_no_newline(s: Seq<char>)
    ensures
        forall|i: int| 0 <= i < json_quote(s).len() ==> #[trigger] json_quote(s)[i] != '\n',
{
    lemma_escape_has_no_newline(s);
    let e = json_escape(s);
    assert forall|i: int| 0 <= i < json_quote(s).len() implies #[trigger] json_quote(s)[i]
        != '\n' by {
        if 0 < i < e.len() + 1 {
            assert(json_quote(s)[i] == e[i - 1]);
        }
    }
}

proof fn lemma_concat_has_no_newline(a: Seq<char>, b: Seq<char>)
    requires
        forall|i: int| 0 <= i < a.len() ==> #[trigger] a[i] != '\n',
        forall|i: int| 0 <= i < b.len() ==> #[trigger] b[i] != '\n',
    ensures
        forall|i: int| 0 <= i < (a + b).len() ==> #[trigger] (a + b)[i] != '\n',
{
    assert forall|i: int| 0 <= i < (a + b).len() implies #[trigger] (a + b)[i] != '\n' by {
        if i < a.len() {
            assert((a + b)[i] == a[i]);
        } else {
            assert((a + b)[i] == b[i - a.len()]);
        }
    }
}

proof fn lemma_no_newline_found(s: Seq<char>, i: int)
    requires
        0 <= i,
        forall|m: int| 0 <= m < s.len() ==> #[trigger] s[m] != '\n',
    ensures
        first_at_or_after(s, '\n', i) is None,
    decreases s.len() - i,
{
    if i < s.len() {
        lemma_no_newline_found(s, i + 1);
    }
}

proof fn lemma_line_has_no_newline(
    id: Seq<char>,
    name: Seq<char>,
    cell_id: Seq<char>,
    status: WorkflowRunStatus,
)
    ensures
        forall|i: int|
            0 <= i < persisted_line(id, name, cell_id, status).len() ==> #[trigger] persisted_line(
                id,
                name,
                cell_id,
                status,
            )[i] != '\n',
        persisted_line(id, name, cell_id, status) == WORKFLOW_RUN_MARKER@ + persisted_json(id, name, cell_id, status),
        persisted_json(id, name, cell_id, status).last() == '}',
{
    let line = persisted_line(id, name, cell_id, status);
    let json = persisted_json(id, name, cell_id, status);
    let m = WORKFLOW_RUN_MARKER@;
    reveal_strlit("codex_workflow_run_v1=");
    reveal_strlit("{\"id\":");
    reveal_strlit(",\"name\":");
    reveal_strlit(",\"cell_id\":");
    reveal_strlit(",\"status\":");
    reveal_strlit("}");
    lemma_quote_has_no_newline(id);
    lemma_quote_has_no_newline(name);
    lemma_quote_has_no_newline(cell_id);
    lemma_quote_has_no_newline(status_name(status));
    let p1 = "{\"id\":"@ + json_quote(id);
    lemma_concat_has_no_newline("{\"id\":"@, json_quote(id));
    let p2 = p1 + ",\"name\":"@;
    lemma_concat_has_no_newline(p1, ",\"name\":"@);
    let p3 = p2 + json_quote(name);
    lemma_concat_has_no_newline(p2, json_quote(name));
    let p4 = p3 + ",\"cell_id\":"@;
    lemma_concat_has_no_newline(p3, ",\"cell_id\":"@);
    let p5 = p4 + json_quote(cell_id);
    lemma_concat_has_no_newline(p4, json_quote(cell_id));
    let p6 = p5 + ",\"status\":"@;
    lemma_concat_has_no_newline(p5, ",\"status\":"@);
    let p7 = p6 + json_quote(status_name(status));
    lemma_concat_has_no_newline(p6, json_quote(status_name(status)));
    lemma_concat_has_no_newline(p7, "}"@);
    assert(json == p7 + "}"@);
    lemma_concat_has_no_newline(m, json);
    assert(line == m + json);
}

/// A run's persistence line, alone in a tool output, is found again by the
/// scan of earlier outputs, and what follows its marker is the run as JSON.
pub proof fn law_persisted_line_is_found_again(
    id: Seq<char>,
    name: Seq<char>,
    cell_id: Seq<char>,
    status: WorkflowRunStatus,
)
    ensures
        run_marker_payloads(seq![persisted_line(id, name, cell_id, status)]) == seq![
            persisted_json(id, name, cell_id, status),
        ],
{
    let line = persisted_line(id, name, cell_id, status);
    let json = persisted_json(id, name, cell_id, status);
    let m = WORKFLOW_RUN_MARKER@;
    reveal_strlit("codex_workflow_run_v1=");
    lemma_line_has_no_newline(id, name, cell_id, status);
    lemma_no_newline_found(line, 0);
    assert(line.subrange(0, line.len() as int) == line);
    assert(text_lines(line) == seq![line]);
    assert(line.subrange(0, m.len() as int) == m);
    assert(line.subrange(m.len() as int, line.len() as int) == json);
    assert(marker_payload(line) == Some(json));
    assert(seq![line].drop_last() == Seq::<Seq<char>>::empty());
    assert(payloads_last_first(Seq::<Seq<char>>::empty()) == Seq::<Seq<char>>::empty());
    assert(payloads_last_first(seq![line]) =~= seq![json]);
    assert(seq![line].last() == line);
    assert(run_marker_payloads(Seq::<Seq<char>>::empty()) == Seq::<Seq<char>>::empty());
    assert(run_marker_payloads(seq![line]) =~= seq![json]);
}

/// A workflow file is accepted only with a non-blank name and description,
/// and its body is the tail of the file.
pub proof fn law_accepted_source_splits(s: Seq<char>)
    ensures
        parsed_source(s) matches Ok((body, name, description)) ==> {
            &&& !all_ws(name)
            &&& !all_ws(description)
            &&& body.len() <= s.len()
            &&& body == s.subrange(s.len() - body.len(), s.len() as int)
        },
{
    reveal(parsed_source);
    if let Ok((body, name, description)) = parsed_source(s) {
        let start = if s.len() > 0 && s[0] == '\u{feff}' { 1int } else { 0int };
        lemma_ws_end(s, start);
        let i1 = text_start(s);
        let p = META_PREFIX@;
        lemma_ws_end(s, i1 + p.len());
        let i2 = ws_end(s, i1 + p.len());
        lemma_first_at_or_after(s, '{', i2 + 1);
        let open = first_at_or_after(s, '{', i2 + 1)->Some_0;
        lemma_object_end(s.skip(open));
        let end = object_end(s.skip(open))->Ok_0;
        lemma_ws_end(s, open + end + 1);
        let b = body_start(s, open + end);
        assert(0 <= b <= s.len());
        assert(body == s.skip(b));
        assert(body =~= s.subrange(s.len() - body.len(), s.len() as int));
    }
}

/// The program text before the workflow body: the arguments and the
/// validated metadata. It does not depend on the body.
pub open spec fn program_before_body(args_text: Seq<char>, name: Seq<char>, description: Seq<char>) -> Seq<char> {
    let meta = meta_json(name, description);
    ARGS_DECL@ + args_text + META_DECL@ + meta + VALIDATED_META_DECL@ + meta + BODY_DECL@
}

/// The program text after the workflow body: the agent tool bindings and the
/// runtime helpers. It does not depend on the body.
pub open spec fn program_after_body(api: WorkflowAgentApi) -> Seq<char> {
    let list = optional_tool_json(api_list_tool(api));
    RUNTIME_BINDINGS@ + json_quote(api_version(api)) + SPAWN_LOOKUP@ + json_quote(
        api_spawn_tool(api),
    ) + WAIT_LOOKUP@ + json_quote(api_wait_tool(api)) + LIST_DECL@ + list + LIST_LOOKUP@ + list
        + STOP_LOOKUP@ + json_quote(api_stop_tool(api)) + RUNTIME_HELPERS@
}

/// The workflow body enters the compiled program only as one JSON string
/// literal between text that does not depend on it: the body cannot reach
/// the runtime prelude as code.
pub proof fn law_body_is_isolated(
    args_text: Seq<char>,
    body: Seq<char>,
    name: Seq<char>,
    description: Seq<char>,
    api: WorkflowAgentApi,
)
    ensures
        compiled_program(args_text, body, name, description, api) == program_before_body(
            args_text,
            name,
            description,
        ) + json_quote(body) + program_after_body(api),
{
    reveal(compiled_program);
    let meta = meta_json(name, description);
    let list = optional_tool_json(api_list_tool(api));
    assert(compiled_program(args_text, body, name, description, api) =~= program_before_body(
        args_text,
        name,
        description,
    ) + json_quote(body) + program_after_body(api));
}

/// The compiled program starts by binding the arguments text on a line of
/// its own, and holds the body as one JSON string bound to
/// `__workflowBody`.
pub proof fn law_program_layout(
    args_text: Seq<char>,
    body: Seq<char>,
    name: Seq<char>,
    description: Seq<char>,
    api: WorkflowAgentApi,
)
    ensures
        ({
            let p = compiled_program(args_text, body, name, description, api);
            let head = "const args = "@ + args_text + ";\n"@;
            let piece = "const __workflowBody = "@ + json_quote(body) + ";"@;
            let k = program_before_body(args_text, name, description).len() - 23;
            &&& head.len() <= p.len()
            &&& p.subrange(0, head.len() as int) == head
            &&& 0 <= k
            &&& k + piece.len() <= p.len()
            &&& p.subrange(k, k + piece.len()) == piece
        }),
{
    law_body_is_isolated(args_text, body, name, description, api);
    reveal_strlit("const args = ");
    reveal_strlit(";\n");
    reveal_strlit(";\nconst meta = Object.freeze(");
    reveal_strlit(";\nconst __workflowBody = ");
    reveal_strlit("const __workflowBody = ");
    reveal_strlit(";");
    let p = compiled_program(args_text, body, name, description, api);
    let before = program_before_body(args_text, name, description);
    let after = program_after_body(api);
    let meta = meta_json(name, description);
    let head = "const args = "@ + args_text + ";\n"@;
    let m = META_DECL@;
    assert(m =~= ";\n"@ + m.skip(2));
    assert(before =~= head + (m.skip(2) + meta + VALIDATED_META_DECL@ + meta + BODY_DECL@));
    assert(p =~= head + (m.skip(2) + meta + VALIDATED_META_DECL@ + meta + BODY_DECL@
        + json_quote(body) + after));
    assert(p.subrange(0, head.len() as int) =~= head);
    let bd = BODY_DECL@;
    assert(bd.len() == 25);
    assert(bd.skip(2) =~= "const __workflowBody = "@);
    let k = before.len() - 23;
    reveal_strlit(";\nconst __workflowTools = tools;\nconst __workflowText = text;\nconst __workflowYieldControl = yield_control;\nconst __workflowAgentApi = ");
    let rb = RUNTIME_BINDINGS@;
    assert(rb[0] == ';');
    assert(after[0] == ';');
    let piece = "const __workflowBody = "@ + json_quote(body) + ";"@;
    assert(before.subrange(k, before.len() as int) =~= bd.skip(2));
    assert(p.subrange(k, k + piece.len()) =~= piece);
}

/// An agent tracked for a cell is among the agents taken when the cell
/// ends: the cell's entry holds it.
pub proof fn law_tracked_agent_is_held(
    new_entries: Seq<CellAgents>,
    entries: Seq<CellAgents>,
    cell: Seq<char>,
    agent: WorkflowOwnedAgent,
)
    requires
        distinct_agent_cells(entries),
        tracked_entries(new_entries, entries, cell, agent),
    ensures
        agents_entry(new_entries, cell) matches Some(k) && has_agent(new_entries[k].agents@, agent),
{
    lemma_agents_entry_from(entries, cell, 0);
    match agents_entry(entries, cell) {
        Some(k) => {
            assert forall|m: int| 0 <= m < k implies (#[trigger] new_entries[m]).cell_id@ != cell by {
                assert(new_entries[m] == entries[m]);
                assert(entries[m].cell_id@ != entries[k].cell_id@);
            }
            lemma_first_entry(new_entries, cell, k, 0);
            let agents = entries[k].agents@;
            if !has_agent(agents, agent) {
                assert(same_agent(agents.push(agent)[agents.len() as int], agent));
            }
        },
        None => {
            let n = new_entries.len() - 1;
            let base = new_entries.drop_last();
            assert forall|m: int| 0 <= m < n implies (#[trigger] new_entries[m]).cell_id@ != cell by {
                assert(new_entries[m] == base[m]);
                if entries.len() >= MAX_PENDING_WORKFLOW_CELLS {
                    assert(base[m] == entries[m + 1]);
                } else {
                    assert(base[m] == entries[m]);
                }
            }
            lemma_first_entry(new_entries, cell, n, 0);
            assert(same_agent(new_entries[n].agents@[0], agent));
        },
    }
}

proof fn lemma_first_entry(entries: Seq<CellAgents>, cell: Seq<char>, k: int, i: int)
    requires
        0 <= i <= k < entries.len(),
        entries[k].cell_id@ == cell,
        forall|m: int| 0 <= m < k ==> (#[trigger] entries[m]).cell_id@ != cell,
    ensures
        agents_entry_from(entries, cell, i) == Some(k),
    decreases k - i,
{
    if i < k {
        lemma_first_entry(entries, cell, k, i + 1);
    }
}

/// Once a cell's agents are taken, the cell holds no agents any more.
pub proof fn law_taken_cell_holds_no_agents(entries: Seq<CellAgents>, cell: Seq<char>)
    requires
        distinct_agent_cells(entries),
    ensures
        agents_entry(without_agents_entry(entries, cell), cell) is None,
{
    lemma_agents_entry_from(entries, cell, 0);
    let rest = without_agents_entry(entries, cell);
    lemma_agents_entry_from(rest, cell, 0);
    if let Some(k) = agents_entry(entries, cell) {
        if let Some(j) = agents_entry(rest, cell) {
            if j < k {
                assert(rest[j] == entries[j]);
            } else {
                assert(rest[j] == entries[j + 1]);
            }
        }
    }
}

/// The wait locks kept when a run is registered give its cell a lock: the
/// cell's existing one, or the new one.
pub proof fn law_registered_cell_has_wait_lock<L>(
    base: Seq<CellWaitLock<L>>,
    cell_id: String,
    lock: L,
)
    ensures
        lock_entry(
            if lock_entry(base, cell_id@) is Some {
                base
            } else {
                base.push(CellWaitLock { cell_id, lock })
            },
            cell_id@,
        ) is Some,
{
    if lock_entry(base, cell_id@) is None {
        let pushed = base.push(CellWaitLock { cell_id, lock });
        lemma_lock_entry_from(base, cell_id@, 0);
        lemma_lock_entry_from(pushed, cell_id@, 0);
        if lock_entry(pushed, cell_id@) is None {
            assert(pushed[base.len() as int].cell_id@ == cell_id@);
        }
    }
}

proof fn lemma_newline_at(s: Seq<char>, i: int, j: int)
    requires
        0 <= i <= j < s.len(),
        s[j] == '\n',
        forall|m: int| i <= m < j ==> #[trigger] s[m] != '\n',
    ensures
        first_at_or_after(s, '\n', i) == Some(j),
    decreases j - i,
{
    if i < j {
        lemma_newline_at(s, i + 1, j);
    }
}

/// The text that `run_workflow` puts before a launched run's output carries
/// the run's persistence line on a line of its own: a later scan of that
/// output finds exactly the run's JSON, whatever identifier the run has
/// short of a line break.
pub proof fn law_run_header_is_restorable(
    id: Seq<char>,
    status: WorkflowRunStatus,
    name: Seq<char>,
    cell_id: Seq<char>,
    persisted_status: WorkflowRunStatus,
)
    requires
        forall|i: int| 0 <= i < id.len() ==> #[trigger] id[i] != '\n',
    ensures
        run_marker_payloads(
            seq![run_header(id, status, persisted_line(id, name, cell_id, persisted_status))],
        ) == seq![persisted_json(id, name, cell_id, persisted_status)],
{
    let line = persisted_line(id, name, cell_id, persisted_status);
    let json = persisted_json(id, name, cell_id, persisted_status);
    lemma_line_has_no_newline(id, name, cell_id, persisted_status);
    reveal_strlit("Managed workflow run ");
    reveal_strlit(" (");
    reveal_strlit(").\n");
    reveal_strlit("\n");
    reveal_strlit("running");
    reveal_strlit("completed");
    reveal_strlit("failed");
    reveal_strlit("terminated");
    reveal_strlit("codex_workflow_run_v1=");
    let first = "Managed workflow run "@ + id + " ("@ + status_name(status) + ")."@;
    reveal_strlit(").");
    assert forall|m: int| 0 <= m < status_name(status).len() implies #[trigger] status_name(
        status,
    )[m] != '\n' by {
        match status {
            WorkflowRunStatus::Running => {},
            WorkflowRunStatus::Completed => {},
            WorkflowRunStatus::Failed => {},
            WorkflowRunStatus::Terminated => {},
        }
    }
    lemma_concat_has_no_newline("Managed workflow run "@, id);
    lemma_concat_has_no_newline("Managed workflow run "@ + id, " ("@);
    lemma_concat_has_no_newline("Managed workflow run "@ + id + " ("@, status_name(status));
    lemma_concat_has_no_newline(
        "Managed workflow run "@ + id + " ("@ + status_name(status),
        ")."@,
    );
    let text = run_header(id, status, line);
    assert(text =~= first + "\n"@ + line + "\n"@);
    let a = first.len() as int;
    let b = a + 1 + line.len() as int;
    assert forall|m: int| 0 <= m < a implies #[trigger] text[m] != '\n' by {
        assert(text[m] == first[m]);
    }
    lemma_newline_at(text, 0, a);
    assert forall|m: int| a + 1 <= m < b implies #[trigger] text[m] != '\n' by {
        assert(text[m] == line[m - a - 1]);
    }
    lemma_newline_at(text, a + 1, b);
    assert(text.subrange(0, a) =~= first);
    assert(text.subrange(a + 1, b) =~= line);
    assert(first.last() == '.');
    assert(strip_cr(first) == first);
    assert(line.last() == '}');
    assert(strip_cr(line) == line);
    assert(lines_from(text, b + 1) == Seq::<Seq<char>>::empty());
    assert(lines_from(text, a + 1) =~= seq![line]);
    assert(text_lines(text) =~= seq![first, line]);
    assert(first[0] == 'M');
    assert(WORKFLOW_RUN_MARKER@[0] == 'c');
    assert(marker_payload(first) is None) by {
        if marker_payload(first) is Some {
            assert(first.subrange(0, WORKFLOW_RUN_MARKER@.len() as int)[0] == first[0]);
        }
    }
    assert(marker_payload(line) == Some(json)) by {
        assert(line.subrange(0, WORKFLOW_RUN_MARKER@.len() as int) =~= WORKFLOW_RUN_MARKER@);
        assert(line.subrange(WORKFLOW_RUN_MARKER@.len() as int, line.len() as int) =~= json);
    }
    assert(seq![first, line].drop_last() =~= seq![first]);
    assert(seq![first].drop_last() =~= Seq::<Seq<char>>::empty());
    assert(payloads_last_first(Seq::<Seq<char>>::empty()) == Seq::<Seq<char>>::empty());
    assert(payloads_last_first(seq![first]) =~= Seq::<Seq<char>>::empty());
    assert(payloads_last_first(seq![first, line]) =~= seq![json]);
    assert(run_marker_payloads(Seq::<Seq<char>>::empty()) == Seq::<Seq<char>>::empty());
    assert(seq![text].drop_last() =~= Seq::<Seq<char>>::empty());
    assert(run_marker_payloads(seq![text]) =~= seq![json]);
}

/// Text with no quote and no backslash, which a single-quoted metadata
/// string holds as it is.
pub open spec fn plain_text(x: Seq<char>) -> bool {
    forall|i: int| 0 <= i < x.len() ==> #[trigger] x[i] != '\'' && x[i] != '\\'
}

proof fn lemma_plain_string_close(s: Seq<char>, k: int, n: int)
    requires
        0 <= k,
        0 <= n,
        k + n < s.len(),
        forall|m: int| k <= m < k + n ==> #[trigger] s[m] != '\'' && s[m] != '\\',
        s[k + n] == '\'',
    ensures
        string_close_from(s, '\'', k) == Some(k + n),
    decreases n,
{
    if n > 0 {
        lemma_plain_string_close(s, k + 1, n - 1);
    }
}

proof fn lemma_unescape_plain(x: Seq<char>)
    requires
        plain_text(x),
    ensures
        unescape_contents(x) == Ok::<Seq<char>, Seq<char>>(x),
    decreases x.len(),
{
    if x.len() > 0 {
        assert(plain_text(x.drop_first())) by {
            assert forall|i: int| 0 <= i < x.drop_first().len() implies #[trigger] x.drop_first()[i]
                != '\'' && x.drop_first()[i] != '\\' by {
                assert(x.drop_first()[i] == x[i + 1]);
            }
        }
        lemma_unescape_plain(x.drop_first());
        assert(x[0] != '\\');
        assert(seq![x[0]] + x.drop_first() =~= x);
    } else {
        assert(x =~= Seq::<char>::empty());
    }
}

/// Characters that the object scan passes over without effect.
pub open spec fn inert_in_object(c: char) -> bool {
    !is_quote(c) && c != '/' && c != '{' && c != '}'
}

proof fn lemma_object_inert_run(s: Seq<char>, i: int, j: int, depth: nat)
    requires
        0 <= i <= j < s.len(),
        forall|m: int| i <= m < j ==> inert_in_object(#[trigger] s[m]),
    ensures
        object_end_from(s, i, depth) == object_end_from(s, j, depth),
    decreases j - i,
{
    if i < j {
        lemma_object_inert_run(s, i + 1, j, depth);
    }
}

proof fn lemma_ident_run(s: Seq<char>, i: int, j: int)
    requires
        0 <= i < j <= s.len(),
        forall|m: int| i < m < j ==> is_ident_continue(#[trigger] s[m]),
        j == s.len() || !is_ident_continue(s[j]),
    ensures
        ident_end(s, i) == j - 1,
    decreases j - i,
{
    if i + 1 < j {
        lemma_ident_run(s, i + 1, j);
    }
}

/// The metadata object of the canonical header, followed by `rest`.
pub open spec fn canonical_object(name: Seq<char>, description: Seq<char>, rest: Seq<char>) -> Seq<char> {
    "{name:'"@ + name + "',description:'"@ + description + "'}"@ + rest
}

proof fn lemma_canonical_object_end(name: Seq<char>, description: Seq<char>, rest: Seq<char>)
    requires
        plain_text(name),
        plain_text(description),
    ensures
        object_end(canonical_object(name, description, rest)) == Ok::<int, Seq<char>>(
            23 + name.len() as int + description.len() as int,
        ),
{
    reveal_strlit("{name:'");
    reveal_strlit("',description:'");
    reveal_strlit("'}");
    let t = canonical_object(name, description, rest);
    let a = name.len() as int;
    let b = description.len() as int;
    assert(t.len() == 24 + a + b + rest.len());
    assert(t[0] == '{');
    assert forall|m: int| 1 <= m < 6 implies inert_in_object(#[trigger] t[m]) by {}
    lemma_object_inert_run(t, 1, 6, 1);
    assert(t[6] == '\'');
    assert forall|m: int| 7 <= m < 7 + a implies #[trigger] t[m] != '\'' && t[m] != '\\' by {
        assert(t[m] == name[m - 7]);
    }
    assert(t[7 + a] == '\'');
    lemma_plain_string_close(t, 7, a);
    assert forall|m: int| 8 + a <= m < 21 + a implies inert_in_object(#[trigger] t[m]) by {}
    lemma_object_inert_run(t, 8 + a, 21 + a, 1);
    assert(t[21 + a] == '\'');
    assert forall|m: int| 22 + a <= m < 22 + a + b implies #[trigger] t[m] != '\'' && t[m] != '\\' by {
        assert(t[m] == description[m - 22 - a]);
    }
    assert(t[22 + a + b] == '\'');
    lemma_plain_string_close(t, 22 + a, b);
    assert(t[23 + a + b] == '}');
    assert(object_end_from(t, 23 + a + b, 1) == Ok::<int, Seq<char>>(23 + a + b));
    assert(object_end_from(t, 21 + a, 1) == object_end_from(t, 23 + a + b, 1));
    assert(object_end_from(t, 6, 1) == object_end_from(t, 8 + a, 1));
    assert(object_end_from(t, 0, 0) == object_end_from(t, 1, 1));
}

#[verifier::spinoff_prover]
#[verifier::rlimit(40)]
proof fn lemma_canonical_properties(name: Seq<char>, description: Seq<char>)
    requires
        plain_text(name),
        plain_text(description),
    ensures
        property_in(canonical_object(name, description, Seq::empty()), "name"@) == Ok::<
            Option<Seq<char>>,
            Seq<char>,
        >(Some(name)),
        property_in(canonical_object(name, description, Seq::empty()), "description"@) == Ok::<
            Option<Seq<char>>,
            Seq<char>,
        >(Some(description)),
{
    reveal_strlit("{name:'");
    reveal_strlit("',description:'");
    reveal_strlit("'}");
    reveal_strlit("name");
    reveal_strlit("description");
    let t = canonical_object(name, description, Seq::empty());
    let a = name.len() as int;
    let b = description.len() as int;
    let pn = "name"@;
    let pd = "description"@;
    assert(t.len() == 24 + a + b);
    // The key `name`.
    assert forall|m: int| 1 < m < 5 implies is_ident_continue(#[trigger] t[m]) by {}
    lemma_ident_run(t, 1, 5);
    assert(t.subrange(1, 5) =~= pn);
    assert(is_ascii_alpha(t[1]));
    // The string value of `name`.
    assert forall|m: int| 7 <= m < 7 + a implies #[trigger] t[m] != '\'' && t[m] != '\\' by {
        assert(t[m] == name[m - 7]);
    }
    lemma_plain_string_close(t, 7, a);
    assert(t.subrange(6, 8 + a).subrange(1, a + 1) =~= name);
    lemma_unescape_plain(name);
    assert(decoded_string(t.subrange(6, 8 + a)) == Ok::<Seq<char>, Seq<char>>(name));
    assert(!is_ascii_ws(t[5]));
    assert(ascii_ws_end(t, 5) == 5);
    assert(!is_ascii_ws(t[6]));
    assert(ascii_ws_end(t, 6) == 6);
    assert(property_value(t, 5) == Ok::<Option<Seq<char>>, Seq<char>>(Some(name)));
    assert(property_from(t, pn, 1, 1) == Ok::<Option<Seq<char>>, Seq<char>>(Some(name)));
    assert(property_in(t, pn) == property_from(t, pn, 1, 1));
    // Looking for `description`: the key `name` is passed over.
    assert(pn != pd) by {
        assert(pn.len() != pd.len());
    }
    assert(property_from(t, pd, 1, 1) == property_from(t, pd, 5, 1));
    assert(property_from(t, pd, 5, 1) == property_from(t, pd, 6, 1));
    // The value of `name` is read as a key with no colon after it.
    assert(!is_ascii_ws(t[8 + a]));
    assert(ascii_ws_end(t, 8 + a) == 8 + a);
    assert(property_value(t, 8 + a) == Ok::<Option<Seq<char>>, Seq<char>>(None));
    assert(property_from(t, pd, 6, 1) == property_from(t, pd, 8 + a, 1));
    assert(property_from(t, pd, 8 + a, 1) == property_from(t, pd, 9 + a, 1));
    // The key `description` and its value.
    assert forall|m: int| 9 + a < m < 20 + a implies is_ident_continue(#[trigger] t[m]) by {}
    lemma_ident_run(t, 9 + a, 20 + a);
    assert(t.subrange(9 + a, 20 + a) =~= pd);
    assert(is_ascii_alpha(t[9 + a]));
    assert forall|m: int| 22 + a <= m < 22 + a + b implies #[trigger] t[m] != '\'' && t[m] != '\\' by {
        assert(t[m] == description[m - 22 - a]);
    }
    lemma_plain_string_close(t, 22 + a, b);
    assert(t.subrange(21 + a, 23 + a + b).subrange(1, b + 1) =~= description);
    lemma_unescape_plain(description);
    assert(!is_ascii_ws(t[20 + a]));
    assert(ascii_ws_end(t, 20 + a) == 20 + a);
    assert(!is_ascii_ws(t[21 + a]));
    assert(ascii_ws_end(t, 21 + a) == 21 + a);
    assert(property_value(t, 20 + a) == Ok::<Option<Seq<char>>, Seq<char>>(Some(description)));
    assert(property_from(t, pd, 9 + a, 1) == Ok::<Option<Seq<char>>, Seq<char>>(Some(description)));
}

/// A workflow file that starts with the header
/// `export const meta={name:'…',description:'…'}`.
pub open spec fn canonical_source(name: Seq<char>, description: Seq<char>, body: Seq<char>) -> Seq<char> {
    "export const meta="@ + canonical_object(name, description, body)
}

/// A workflow file whose header gives a name and a description in single
/// quotes is accepted, and reads back that name, that description and the
/// body that follows the header: what a header writes, the parser reads.
/// The values hold no quote or backslash and are not blank, and the body
/// does not start with whitespace or a semicolon, which the parser drops.
#[verifier::spinoff_prover]
pub proof fn law_header_reads_back(name: Seq<char>, description: Seq<char>, body: Seq<char>)
    requires
        plain_text(name),
        plain_text(description),
        !all_ws(name),
        !all_ws(description),
        body.len() == 0 || (!is_unicode_ws(body[0]) && body[0] != ';'),
    ensures
        parsed_source(canonical_source(name, description, body)) == Ok::<
            (Seq<char>, Seq<char>, Seq<char>),
            Seq<char>,
        >((body, name, description)),
{
    reveal(parsed_source);
    reveal_strlit("export const meta=");
    reveal_strlit("export const meta");
    reveal_strlit("{name:'");
    reveal_strlit("',description:'");
    reveal_strlit("'}");
    let s = canonical_source(name, description, body);
    let a = name.len() as int;
    let b = description.len() as int;
    let object = canonical_object(name, description, body);
    assert(s.len() == 42 + a + b + body.len());
    assert(s[0] == 'e');
    assert(!is_unicode_ws(s[0]));
    assert(ws_end(s, 0) == 0);
    assert(text_start(s) == 0);
    assert(s.subrange(0, 17) =~= META_PREFIX@);
    assert(s[17] == '=');
    assert(!is_unicode_ws(s[17]));
    assert(ws_end(s, 17) == 17);
    assert(s[18] == '{');
    assert(first_at_or_after(s, '{', 18) == Some(18int));
    assert(all_ws(s.subrange(18, 18)));
    assert(s.skip(18) =~= object);
    lemma_canonical_object_end(name, description, body);
    let end = 23 + a + b;
    assert(s.subrange(18, 18 + end + 1) =~= canonical_object(name, description, Seq::empty()));
    lemma_canonical_properties(name, description);
    let close = 18 + end;
    if body.len() == 0 {
        assert(ws_end(s, close + 1) == close + 1);
    } else {
        assert(s[close + 1] == body[0]);
        assert(ws_end(s, close + 1) == close + 1);
    }
    assert(body_start(s, close) == close + 1);
    assert(s.skip(close + 1) =~= body);
}

/// Text with no line feed, which a `//` comment runs through.
pub open spec fn one_line(x: Seq<char>) -> bool {
    forall|i: int| 0 <= i < x.len() ==> #[trigger] x[i] != '\n'
}

proof fn lemma_line_end_at(s: Seq<char>, k: int, j: int)
    requires
        0 <= k <= j < s.len(),
        s[j] == '\n',
        forall|m: int| k <= m < j ==> #[trigger] s[m] != '\n',
    ensures
        crate::scan::line_end(s, k) == j,
    decreases j - k,
{
    if k < j {
        lemma_line_end_at(s, k + 1, j);
    }
}

/// The metadata object of the canonical header with a `//` comment line
/// before its first entry, followed by `rest`.
pub open spec fn commented_object(
    comment: Seq<char>,
    name: Seq<char>,
    description: Seq<char>,
    rest: Seq<char>,
) -> Seq<char> {
    "{//"@ + comment + "\n"@ + "name:'"@ + name + "',description:'"@ + description + "'}"@ + rest
}

proof fn lemma_commented_object_end(
    comment: Seq<char>,
    name: Seq<char>,
    description: Seq<char>,
    rest: Seq<char>,
)
    requires
        one_line(comment),
        plain_text(name),
        plain_text(description),
    ensures
        object_end(commented_object(comment, name, description, rest)) == Ok::<int, Seq<char>>(
            26 + comment.len() as int + name.len() as int + description.len() as int,
        ),
{
    reveal_strlit("{//");
    reveal_strlit("\n");
    reveal_strlit("name:'");
    reveal_strlit("',description:'");
    reveal_strlit("'}");
    let t = commented_object(comment, name, description, rest);
    let l = comment.len() as int + 3;
    let a = name.len() as int;
    let b = description.len() as int;
    assert(t.len() == 24 + l + a + b + rest.len());
    assert(t[0] == '{');
    assert(t[1] == '/' && t[2] == '/');
    assert forall|m: int| 3 <= m < l implies #[trigger] t[m] != '\n' by {
        assert(t[m] == comment[m - 3]);
    }
    assert(t[l] == '\n');
    lemma_line_end_at(t, 3, l);
    assert(object_end_from(t, 1, 1) == object_end_from(t, 1 + l, 1));
    assert forall|m: int| 1 + l <= m < 6 + l implies inert_in_object(#[trigger] t[m]) by {}
    lemma_object_inert_run(t, 1 + l, 6 + l, 1);
    assert(t[6 + l] == '\'');
    assert forall|m: int| 7 + l <= m < 7 + l + a implies #[trigger] t[m] != '\'' && t[m] != '\\' by {
        assert(t[m] == name[m - 7 - l]);
    }
    assert(t[7 + l + a] == '\'');
    lemma_plain_string_close(t, 7 + l, a);
    assert forall|m: int| 8 + l + a <= m < 21 + l + a implies inert_in_object(#[trigger] t[m]) by {}
    lemma_object_inert_run(t, 8 + l + a, 21 + l + a, 1);
    assert(t[21 + l + a] == '\'');
    assert forall|m: int| 22 + l + a <= m < 22 + l + a + b implies #[trigger] t[m] != '\'' && t[m]
        != '\\' by {
        assert(t[m] == description[m - 22 - l - a]);
    }
    assert(t[22 + l + a + b] == '\'');
    lemma_plain_string_close(t, 22 + l + a, b);
    assert(t[23 + l + a + b] == '}');
    assert(object_end_from(t, 23 + l + a + b, 1) == Ok::<int, Seq<char>>(23 + l + a + b));
    assert(object_end_from(t, 21 + l + a, 1) == object_end_from(t, 23 + l + a + b, 1));
    assert(object_end_from(t, 6 + l, 1) == object_end_from(t, 8 + l + a, 1));
    assert(object_end_from(t, 0, 0) == object_end_from(t, 1, 1));
}

#[verifier::spinoff_prover]
#[verifier::rlimit(60)]
proof fn lemma_commented_properties(comment: Seq<char>, name: Seq<char>, description: Seq<char>)
    requires
        one_line(comment),
        plain_text(name),
        plain_text(description),
    ensures
        property_in(commented_object(comment, name, description, Seq::empty()), "name"@) == Ok::<
            Option<Seq<char>>,
            Seq<char>,
        >(Some(name)),
        property_in(commented_object(comment, name, description, Seq::empty()), "description"@)
            == Ok::<Option<Seq<char>>, Seq<char>>(Some(description)),
{
    reveal_strlit("{//");
    reveal_strlit("\n");
    reveal_strlit("name:'");
    reveal_strlit("',description:'");
    reveal_strlit("'}");
    reveal_strlit("name");
    reveal_strlit("description");
    let t = commented_object(comment, name, description, Seq::empty());
    let l = comment.len() as int + 3;
    let a = name.len() as int;
    let b = description.len() as int;
    let pn = "name"@;
    let pd = "description"@;
    assert(t.len() == 24 + l + a + b);
    // The comment line is passed over.
    assert(t[0] == '{');
    assert(t[1] == '/' && t[2] == '/');
    assert forall|m: int| 3 <= m < l implies #[trigger] t[m] != '\n' by {
        assert(t[m] == comment[m - 3]);
    }
    assert(t[l] == '\n');
    lemma_line_end_at(t, 3, l);
    assert(l < t.len());
    assert(property_from(t, pn, 0, 0) == property_from(t, pn, 1, 1));
    assert(property_from(t, pd, 0, 0) == property_from(t, pd, 1, 1));
    assert(property_from(t, pn, 1, 1) == property_from(t, pn, l + 1, 1));
    assert(property_from(t, pd, 1, 1) == property_from(t, pd, l + 1, 1));
    assert(property_in(t, pn) == property_from(t, pn, 1 + l, 1));
    assert(property_in(t, pd) == property_from(t, pd, 1 + l, 1));
    // The key `name`.
    assert forall|m: int| 1 + l < m < 5 + l implies is_ident_continue(#[trigger] t[m]) by {}
    lemma_ident_run(t, 1 + l, 5 + l);
    assert(t.subrange(1 + l, 5 + l) =~= pn);
    assert(is_ascii_alpha(t[1 + l]));
    // The string value of `name`.
    assert forall|m: int| 7 + l <= m < 7 + l + a implies #[trigger] t[m] != '\'' && t[m] != '\\' by {
        assert(t[m] == name[m - 7 - l]);
    }
    lemma_plain_string_close(t, 7 + l, a);
    assert(t.subrange(6 + l, 8 + l + a).subrange(1, a + 1) =~= name);
    lemma_unescape_plain(name);
    assert(decoded_string(t.subrange(6 + l, 8 + l + a)) == Ok::<Seq<char>, Seq<char>>(name));
    assert(!is_ascii_ws(t[5 + l]));
    assert(ascii_ws_end(t, 5 + l) == 5 + l);
    assert(!is_ascii_ws(t[6 + l]));
    assert(ascii_ws_end(t, 6 + l) == 6 + l);
    assert(property_value(t, 5 + l) == Ok::<Option<Seq<char>>, Seq<char>>(Some(name)));
    assert(property_from(t, pn, 1 + l, 1) == Ok::<Option<Seq<char>>, Seq<char>>(Some(name)));
    // Looking for `description`: the key `name` is passed over.
    assert(pn != pd) by {
        assert(pn.len() != pd.len());
    }
    assert(property_from(t, pd, 1 + l, 1) == property_from(t, pd, 5 + l, 1));
    assert(property_from(t, pd, 5 + l, 1) == property_from(t, pd, 6 + l, 1));
    assert(!is_ascii_ws(t[8 + l + a]));
    assert(ascii_ws_end(t, 8 + l + a) == 8 + l + a);
    assert(property_value(t, 8 + l + a) == Ok::<Option<Seq<char>>, Seq<char>>(None));
    assert(property_from(t, pd, 6 + l, 1) == property_from(t, pd, 8 + l + a, 1));
    assert(property_from(t, pd, 8 + l + a, 1) == property_from(t, pd, 9 + l + a, 1));
    // The key `description` and its value.
    assert forall|m: int| 9 + l + a < m < 20 + l + a implies is_ident_continue(#[trigger] t[m]) by {}
    lemma_ident_run(t, 9 + l + a, 20 + l + a);
    assert(t.subrange(9 + l + a, 20 + l + a) =~= pd);
    assert(is_ascii_alpha(t[9 + l + a]));
    assert forall|m: int| 22 + l + a <= m < 22 + l + a + b implies #[trigger] t[m] != '\'' && t[m]
        != '\\' by {
        assert(t[m] == description[m - 22 - l - a]);
    }
    lemma_plain_string_close(t, 22 + l + a, b);
    assert(t.subrange(21 + l + a, 23 + l + a + b).subrange(1, b + 1) =~= description);
    lemma_unescape_plain(description);
    assert(!is_ascii_ws(t[20 + l + a]));
    assert(ascii_ws_end(t, 20 + l + a) == 20 + l + a);
    assert(!is_ascii_ws(t[21 + l + a]));
    assert(ascii_ws_end(t, 21 + l + a) == 21 + l + a);
    assert(property_value(t, 20 + l + a) == Ok::<Option<Seq<char>>, Seq<char>>(Some(description)));
    assert(property_from(t, pd, 9 + l + a, 1) == Ok::<Option<Seq<char>>, Seq<char>>(
        Some(description),
    ));
}

/// A workflow file whose canonical header has a `//` comment line before its
/// first entry.
pub open spec fn commented_source(
    comment: Seq<char>,
    name: Seq<char>,
    description: Seq<char>,
    body: Seq<char>,
) -> Seq<char> {
    "export const meta="@ + commented_object(comment, name, description, body)
}

/// A `//` comment line in the metadata object, whatever it holds up to its
/// line feed (quotes, braces, keys), changes nothing the parser reads: the
/// file parses exactly as it does without the comment, to the header's
/// name, description and body.
#[verifier::spinoff_prover]
pub proof fn law_line_comment_in_header_is_skipped(
    comment: Seq<char>,
    name: Seq<char>,
    description: Seq<char>,
    body: Seq<char>,
)
    requires
        one_line(comment),
        plain_text(name),
        plain_text(description),
        !all_ws(name),
        !all_ws(description),
        body.len() == 0 || (!is_unicode_ws(body[0]) && body[0] != ';'),
    ensures
        parsed_source(commented_source(comment, name, description, body)) == parsed_source(
            canonical_source(name, description, body),
        ),
        parsed_source(commented_source(comment, name, description, body)) == Ok::<
            (Seq<char>, Seq<char>, Seq<char>),
            Seq<char>,
        >((body, name, description)),
{
    law_header_reads_back(name, description, body);
    reveal(parsed_source);
    reveal_strlit("export const meta=");
    reveal_strlit("export const meta");
    reveal_strlit("{//");
    reveal_strlit("\n");
    reveal_strlit("name:'");
    reveal_strlit("',description:'");
    reveal_strlit("'}");
    let s = commented_source(comment, name, description, body);
    let l = comment.len() as int + 3;
    let a = name.len() as int;
    let b = description.len() as int;
    let object = commented_object(comment, name, description, body);
    assert(s.len() == 42 + l + a + b + body.len());
    assert(s[0] == 'e');
    assert(!is_unicode_ws(s[0]));
    assert(ws_end(s, 0) == 0);
    assert(text_start(s) == 0);
    assert(s.subrange(0, 17) =~= META_PREFIX@);
    assert(s[17] == '=');
    assert(!is_unicode_ws(s[17]));
    assert(ws_end(s, 17) == 17);
    assert(s[18] == '{');
    assert(first_at_or_after(s, '{', 18) == Some(18int));
    assert(all_ws(s.subrange(18, 18)));
    assert(s.skip(18) =~= object);
    lemma_commented_object_end(comment, name, description, body);
    let end = 23 + l + a + b;
    assert(s.subrange(18, 18 + end + 1) =~= commented_object(
        comment,
        name,
        description,
        Seq::empty(),
    ));
    lemma_commented_properties(comment, name, description);
    let close = 18 + end;
    if body.len() == 0 {
        assert(ws_end(s, close + 1) == close + 1);
    } else {
        assert(s[close + 1] == body[0]);
        assert(ws_end(s, close + 1) == close + 1);
    }
    assert(body_start(s, close) == close + 1);
    assert(s.skip(close + 1) =~= body);
}

/// A workflow with a well-formed single-quoted header compiles without
/// arguments to the program built from its body, name and description.
pub proof fn law_header_compiles(
    name: Seq<char>,
    description: Seq<char>,
    body: Seq<char>,
    api: WorkflowAgentApi,
    r: Result<String, String>,
)
    requires
        plain_text(name),
        plain_text(description),
        !all_ws(name),
        !all_ws(description),
        body.len() == 0 || (!is_unicode_ws(body[0]) && body[0] != ';'),
        compiled_as(canonical_source(name, description, body), None, api, r),
    ensures
        r matches Ok(p) && p@ == compiled_program("undefined"@, body, name, description, api),
{
    law_header_reads_back(name, description, body);
}

proof fn lemma_ws_end_shift(p: Seq<char>, s: Seq<char>, i: int)
    requires
        0 <= i <= s.len(),
    ensures
        ws_end(p + s, p.len() + i) == p.len() + ws_end(s, i),
    decreases s.len() - i,
{
    let t = p + s;
    if i < s.len() {
        assert(t[p.len() + i] == s[i]);
        if is_unicode_ws(s[i]) {
            lemma_ws_end_shift(p, s, i + 1);
        }
    }
}

proof fn lemma_ws_end_over_ws(t: Seq<char>, i: int, k: int)
    requires
        0 <= i <= k <= t.len(),
        forall|m: int| i <= m < k ==> is_unicode_ws(#[trigger] t[m]),
    ensures
        ws_end(t, i) == ws_end(t, k),
    decreases k - i,
{
    if i < k {
        lemma_ws_end_over_ws(t, i + 1, k);
    }
}

proof fn lemma_first_shift(p: Seq<char>, s: Seq<char>, c: char, i: int)
    requires
        0 <= i,
    ensures
        first_at_or_after(p + s, c, p.len() + i) == match first_at_or_after(s, c, i) {
            Some(j) => Some(p.len() + j),
            None => None::<int>,
        },
    decreases s.len() - i,
{
    if i < s.len() {
        assert((p + s)[p.len() + i] == s[i]);
        if s[i] != c {
            lemma_first_shift(p, s, c, i + 1);
        }
    }
}

/// Text before the metadata that the parser passes over leaves the result
/// unchanged: whatever follows is parsed alike.
proof fn lemma_parse_shift(p: Seq<char>, s: Seq<char>)
    requires
        text_start(p + s) == p.len() + text_start(s),
    ensures
        parsed_source(p + s) == parsed_source(s),
{
    reveal(parsed_source);
    let t = p + s;
    let l = p.len() as int;
    let start = if s.len() > 0 && s[0] == '\u{feff}' { 1int } else { 0int };
    lemma_ws_end(s, start);
    let i1 = text_start(s);
    let pre = META_PREFIX@;
    if i1 + pre.len() <= s.len() {
        assert(t.subrange(l + i1, l + i1 + pre.len()) =~= s.subrange(i1, i1 + pre.len()));
        lemma_ws_end_shift(p, s, i1 + pre.len());
        lemma_ws_end(s, i1 + pre.len());
        let i2 = ws_end(s, i1 + pre.len());
        if i2 < s.len() {
            assert(t[l + i2] == s[i2]);
            lemma_first_shift(p, s, '{', i2 + 1);
            lemma_first_at_or_after(s, '{', i2 + 1);
            if let Some(open) = first_at_or_after(s, '{', i2 + 1) {
                assert(t.subrange(l + i2 + 1, l + open) =~= s.subrange(i2 + 1, open));
                assert(t.skip(l + open) =~= s.skip(open));
                lemma_object_end(s.skip(open));
                if let Ok(end) = object_end(s.skip(open)) {
                    assert(t.subrange(l + open, l + open + end + 1) =~= s.subrange(
                        open,
                        open + end + 1,
                    ));
                    lemma_ws_end_shift(p, s, open + end + 1);
                    lemma_ws_end(s, open + end + 1);
                    let b = ws_end(s, open + end + 1);
                    if b < s.len() {
                        assert(t[l + b] == s[b]);
                    }
                    assert(body_start(t, l + open + end) == l + body_start(s, open + end));
                    assert(t.skip(l + body_start(s, open + end)) =~= s.skip(
                        body_start(s, open + end),
                    ));
                }
            }
        }
    } else {
        assert(!(l + i1 + pre.len() <= t.len()));
    }
}

/// A leading byte-order mark, leading whitespace, or both, leave the parse
/// of a workflow file unchanged.
pub proof fn law_leading_mark_and_whitespace_are_ignored(s: Seq<char>, w: Seq<char>)
    requires
        s.len() == 0 || s[0] != '\u{feff}',
        all_ws(w),
    ensures
        parsed_source(seq!['\u{feff}'] + s) == parsed_source(s),
        parsed_source(w + s) == parsed_source(s),
        parsed_source(seq!['\u{feff}'] + w + s) == parsed_source(s),
{
    let bom = seq!['\u{feff}'];
    assert(!is_unicode_ws('\u{feff}'));
    lemma_ws_end(s, 0);
    assert(text_start(s) == ws_end(s, 0));
    // The mark alone.
    let t1 = bom + s;
    assert(t1[0] == '\u{feff}');
    lemma_ws_end_shift(bom, s, 0);
    assert(text_start(t1) == 1 + text_start(s));
    lemma_parse_shift(bom, s);
    // Whitespace alone.
    let t2 = w + s;
    lemma_ws_end_shift(w, s, 0);
    assert forall|m: int| 0 <= m < w.len() implies is_unicode_ws(#[trigger] t2[m]) by {
        assert(t2[m] == w[m]);
    }
    lemma_ws_end_over_ws(t2, 0, w.len() as int);
    if w.len() > 0 {
        assert(t2[0] == w[0]);
        assert(t2[0] != '\u{feff}');
    } else {
        assert(t2 =~= s);
    }
    assert(text_start(t2) == w.len() + text_start(s));
    lemma_parse_shift(w, s);
    // The mark, then whitespace.
    let bw = bom + w;
    let t3 = bw + s;
    assert(seq!['\u{feff}'] + w + s == t3);
    lemma_ws_end_shift(bw, s, 0);
    assert forall|m: int| 1 <= m < bw.len() implies is_unicode_ws(#[trigger] t3[m]) by {
        assert(t3[m] == w[m - 1]);
    }
    lemma_ws_end_over_ws(t3, 1, bw.len() as int);
    assert(t3[0] == '\u{feff}');
    assert(text_start(t3) == bw.len() + text_start(s));
    lemma_parse_shift(bw, s);
}

/// Tracking one agent twice and then another keeps each once, in the order
/// first tracked, so taking the cell's agents gives both, and untracking the
/// first leaves the second.
pub proof fn law_tracking_keeps_each_agent_once(
    e0: Seq<CellAgents>,
    e1: Seq<CellAgents>,
    e2: Seq<CellAgents>,
    e3: Seq<CellAgents>,
    cell: Seq<char>,
    a1: WorkflowOwnedAgent,
    a2: WorkflowOwnedAgent,
)
    requires
        distinct_agent_cells(e0),
        distinct_agent_cells(e1),
        distinct_agent_cells(e2),
        distinct_agent_cells(e3),
        agents_entry(e0, cell) is None,
        tracked_entries(e1, e0, cell, a1),
        tracked_entries(e2, e1, cell, a1),
        tracked_entries(e3, e2, cell, a2),
        a1.thread_id@ != a2.thread_id@,
    ensures
        agents_entry(e3, cell) matches Some(k) && e3[k].agents@ == seq![a1, a2],
        without_thread(seq![a1, a2], a1.thread_id@) == seq![a2],
{
    law_tracked_agent_is_held(e1, e0, cell, a1);
    lemma_agents_entry_from(e1, cell, 0);
    let k1 = agents_entry(e1, cell)->Some_0;
    let n1 = e1.len() - 1;
    assert(e1[n1].cell_id@ == cell);
    assert(k1 == n1);
    assert(e1[k1].agents@ == seq![a1]);
    assert(same_agent(seq![a1][0], a1));
    assert(has_agent(seq![a1], a1));
    law_tracked_agent_is_held(e2, e1, cell, a1);
    lemma_agents_entry_from(e2, cell, 0);
    let k2 = agents_entry(e2, cell)->Some_0;
    assert(e2[k1].cell_id@ == cell);
    assert(k2 == k1);
    assert(e2[k2].agents@ == seq![a1]);
    assert(!has_agent(seq![a1], a2)) by {
        if has_agent(seq![a1], a2) {
            let i = choose|i: int| 0 <= i < 1 && same_agent(#[trigger] seq![a1][i], a2);
            assert(seq![a1][i] == a1);
        }
    }
    law_tracked_agent_is_held(e3, e2, cell, a2);
    lemma_agents_entry_from(e3, cell, 0);
    let k3 = agents_entry(e3, cell)->Some_0;
    assert(e3[k2].cell_id@ == cell);
    assert(k3 == k2);
    assert(e3[k3].agents@ =~= seq![a1, a2]);
    let both = seq![a1, a2];
    assert(both.drop_last() =~= seq![a1]);
    assert(seq![a1].drop_last() =~= Seq::<WorkflowOwnedAgent>::empty());
    assert(seq![a1].last() == a1);
    assert(without_thread(Seq::<WorkflowOwnedAgent>::empty(), a1.thread_id@) =~= Seq::<
        WorkflowOwnedAgent,
    >::empty());
    assert(without_thread(seq![a1], a1.thread_id@) =~= Seq::<WorkflowOwnedAgent>::empty());
    assert(both.last() == a2);
    assert(without_thread(both, a1.thread_id@) =~= seq![a2]);
}

/// A run persisted from a summary and read back as a record with the same
/// fields is restored alone and lists back as that summary, terminal, with
/// no elapsed time: a running run comes back terminated, any other keeps its
/// status.
pub proof fn law_persisted_summary_lists_back<R>(
    persisted: WorkflowRunSummary,
    record: PersistedWorkflowRun,
    run: WorkflowRun<R>,
    listed: WorkflowRunSummary,
    now_ms: u64,
)
    requires
        record.id@ == persisted.id@,
        record.name@ == persisted.name@,
        record.cell_id@ == persisted.cell_id@,
        record.status == persisted.status,
        is_restored_run(run, record),
        summarizes(listed, run, now_ms),
    ensures
        accepted_records(seq![record], 1) == seq![record],
        listed.id@ == persisted.id@,
        listed.name@ == persisted.name@,
        listed.cell_id@ == persisted.cell_id@,
        listed.status == restored_status(persisted.status),
        listed.elapsed_ms == 0,
        run.origin_sub_id@ == Seq::<char>::empty(),
{
    assert(accepted_records(seq![record], 0) == Seq::<PersistedWorkflowRun>::empty());
    assert(!has_record_id(Seq::<PersistedWorkflowRun>::empty(), record.id@));
    assert(accepted_records(seq![record], 1) =~= seq![record]);
}

/// A watched cell that answers with a final status ends the watch: the run
/// is finished with that answer and the same liveness; only a cell that
/// still runs sends the watcher back to the registry.
pub proof fn law_watch_finishes_on_every_final_status(status: CodeCellStatus, live_cell: bool)
    ensures
        status == CodeCellStatus::Running ==> next_watch_step(
            WatchEvent::Waited { status, live_cell },
        ) == WatchStep::CheckRegistry,
        status == CodeCellStatus::Completed ==> next_watch_step(
            WatchEvent::Waited { status, live_cell },
        ) == (WatchStep::Finish { live_cell }),
        status == CodeCellStatus::Failed ==> next_watch_step(
            WatchEvent::Waited { status, live_cell },
        ) == (WatchStep::Finish { live_cell }),
        status == CodeCellStatus::Terminated ==> next_watch_step(
            WatchEvent::Waited { status, live_cell },
        ) == (WatchStep::Finish { live_cell }),
{
}

/// A candidate that one scope accepts is accepted whatever scopes come
/// before it, and scopes put in front of accepted ones never refuse it.
pub proof fn law_any_accepting_scope_suffices(
    candidate: Seq<char>,
    before: Seq<WorkflowScope>,
    scopes: Seq<WorkflowScope>,
    personal_root: Option<Seq<char>>,
    i: int,
)
    requires
        0 <= i < scopes.len(),
        scope_accepts(scopes[i], candidate),
    ensures
        candidate_accepted(candidate, scopes, personal_root),
        candidate_accepted(candidate, before + scopes, personal_root),
{
    assert((before + scopes)[before.len() + i] == scopes[i]);
}

/// Prepending scopes never turns an accepted candidate into a refused one.
pub proof fn law_prepended_scopes_keep_acceptance(
    candidate: Seq<char>,
    before: Seq<WorkflowScope>,
    scopes: Seq<WorkflowScope>,
    personal_root: Option<Seq<char>>,
)
    requires
        candidate_accepted(candidate, scopes, personal_root),
    ensures
        candidate_accepted(candidate, before + scopes, personal_root),
{
    if exists|i: int| 0 <= i < scopes.len() && scope_accepts(#[trigger] scopes[i], candidate) {
        let i = choose|i: int| 0 <= i < scopes.len() && scope_accepts(#[trigger] scopes[i], candidate);
        law_any_accepting_scope_suffices(candidate, before, scopes, personal_root, i);
    }
}

/// `tools[i]` is the tool `name` of the first-version namespace.
pub open spec fn is_v1_tool(tools: Seq<ToolDefinition>, i: int, name: Seq<char>) -> bool {
    &&& tools[i].tool_name.name@ == name
    &&& tools[i].tool_name.namespace matches Some(ns) && ns@ == "multi_agent_v1"@
}

/// `a` is the first tool `name` of the first-version namespace.
pub open spec fn first_v1_tool_at(tools: Seq<ToolDefinition>, a: int, name: Seq<char>) -> bool {
    &&& 0 <= a < tools.len()
    &&& is_v1_tool(tools, a, name)
    &&& forall|m: int| 0 <= m < a ==> !is_v1_tool(tools, m, name)
}

proof fn lemma_first_v1_tool(tools: Seq<ToolDefinition>, name: Seq<char>, start: int, i: int)
    requires
        0 <= start <= i < tools.len(),
        is_v1_tool(tools, i, name),
        forall|m: int| 0 <= m < start ==> !is_v1_tool(tools, m, name),
    ensures
        first_tool_from(tools, name, true, start) matches Some(a) && first_v1_tool_at(tools, a, name),
    decreases i - start,
{
    if !is_v1_tool(tools, start, name) {
        lemma_first_v1_tool(tools, name, start + 1, i);
    }
}

/// When the first-version spawn, wait and close tools are all offered, the
/// agent helpers bind those three (the first of each), whatever other tools
/// are offered too.
pub proof fn law_first_version_tools_win(tools: Seq<ToolDefinition>, i: int, j: int, k: int)
    requires
        0 <= i < tools.len(),
        0 <= j < tools.len(),
        0 <= k < tools.len(),
        is_v1_tool(tools, i, "spawn_agent"@),
        is_v1_tool(tools, j, "wait_agent"@),
        is_v1_tool(tools, k, "close_agent"@),
    ensures
        agent_api_choice(tools) matches Ok(names) && names.len() == 3 && exists|a: int, b: int, c: int|
            first_v1_tool_at(tools, a, "spawn_agent"@) && first_v1_tool_at(tools, b, "wait_agent"@)
                && first_v1_tool_at(tools, c, "close_agent"@) && names == seq![
                tools[a].name@,
                tools[b].name@,
                tools[c].name@,
            ],
{
    lemma_first_v1_tool(tools, "spawn_agent"@, 0, i);
    lemma_first_v1_tool(tools, "wait_agent"@, 0, j);
    lemma_first_v1_tool(tools, "close_agent"@, 0, k);
    let a = first_tool(tools, "spawn_agent"@, true)->Some_0;
    let b = first_tool(tools, "wait_agent"@, true)->Some_0;
    let c = first_tool(tools, "close_agent"@, true)->Some_0;
    assert(first_v1_tool_at(tools, a, "spawn_agent"@) && first_v1_tool_at(tools, b, "wait_agent"@)
        && first_v1_tool_at(tools, c, "close_agent"@));
}

/// Names are ordered as `str` orders them: a proper prefix comes first.
pub proof fn law_name_order_puts_prefix_first(a: Seq<char>, b: Seq<char>)
    requires
        b.len() > 0,
    ensures
        text_less(a, a + b),
        !text_less(a + b, a),
    decreases a.len(),
{
    if a.len() > 0 {
        assert((a + b)[0] == a[0]);
        assert((a + b).drop_first() =~= a.drop_first() + b);
        law_name_order_puts_prefix_first(a.drop_first(), b);
    }
}

/// Names are ordered as `str` orders them: at the first differing position,
/// the smaller character decides.
pub proof fn law_name_order_at_first_difference(a: Seq<char>, b: Seq<char>, k: int)
    requires
        0 <= k < a.len(),
        k < b.len(),
        a.take(k) == b.take(k),
        a[k] != b[k],
    ensures
        text_less(a, b) == ((a[k] as u32) < (b[k] as u32)),
    decreases k,
{
    if k > 0 {
        assert(a.take(k)[0] == a[0]);
        assert(b.take(k)[0] == b[0]);
        assert(a[0] == b[0]);
        assert(a.drop_first().take(k - 1) =~= a.take(k).drop_first());
        assert(b.drop_first().take(k - 1) =~= b.take(k).drop_first());
        law_name_order_at_first_difference(a.drop_first(), b.drop_first(), k - 1);
    }
}

/// The four status names are distinct, so a persisted status reads back as
/// the status that was written.
pub proof fn law_status_names_are_distinct(a: WorkflowRunStatus, b: WorkflowRunStatus)
    requires
        status_name(a) == status_name(b),
    ensures
        a == b,
{
    reveal_strlit("running");
    reveal_strlit("completed");
    reveal_strlit("failed");
    reveal_strlit("terminated");
    assert(status_name(a).len() == status_name(b).len());
    assert(status_name(WorkflowRunStatus::Running).len() == 7);
    assert(status_name(WorkflowRunStatus::Completed).len() == 9);
    assert(status_name(WorkflowRunStatus::Failed).len() == 6);
    assert(status_name(WorkflowRunStatus::Terminated).len() == 10);
}

/// A run restored from its persisted record is final: a record of a run that
/// was still running comes back terminated, any other keeps its status.
pub proof fn law_restored_runs_are_final<R>(run: WorkflowRun<R>, record: PersistedWorkflowRun)
    requires
        is_restored_run(run, record),
    ensures
        run.status != WorkflowRunStatus::Running,
        record.status != WorkflowRunStatus::Running ==> run.status == record.status,
{
}

/// Restoring keeps at most `MAX_RETAINED_WORKFLOW_RUNS` records, no two with
/// the same identifier, each one of the scanned records.
pub proof fn law_restore_is_bounded_and_unique(records: Seq<PersistedWorkflowRun>, n: int)
    requires
        0 <= n <= records.len(),
    ensures
        accepted_records(records, n).len() <= MAX_RETAINED_WORKFLOW_RUNS,
        forall|i: int, j: int|
            0 <= i < j < accepted_records(records, n).len() ==> (#[trigger] accepted_records(
                records,
                n,
            )[i]).id@ != (#[trigger] accepted_records(records, n)[j]).id@,
        forall|i: int|
            0 <= i < accepted_records(records, n).len() ==> exists|j: int|
                0 <= j < n && records[j] == #[trigger] accepted_records(records, n)[i],
    decreases n,
{
    if n > 0 {
        law_restore_is_bounded_and_unique(records, n - 1);
        let prev = accepted_records(records, n - 1);
        let record = records[n - 1];
        if !(prev.len() >= MAX_RETAINED_WORKFLOW_RUNS || has_record_id(prev, record.id@)) {
            let cur = prev.push(record);
            assert(accepted_records(records, n) == cur);
            assert forall|i: int, j: int| 0 <= i < j < cur.len() implies (#[trigger] cur[i]).id@
                != (#[trigger] cur[j]).id@ by {
                if j == prev.len() {
                    if cur[i].id@ == cur[j].id@ {
                        assert(prev[i] == cur[i]);
                        assert(has_record_id(prev, record.id@));
                    }
                } else {
                    assert(prev[i] == cur[i] && prev[j] == cur[j]);
                }
            }
            assert forall|i: int| 0 <= i < cur.len() implies exists|j: int|
                0 <= j < n && records[j] == #[trigger] cur[i] by {
                if i == prev.len() {
                    assert(records[n - 1] == cur[i]);
                } else {
                    assert(prev[i] == cur[i]);
                    let j = choose|j: int| 0 <= j < n - 1 && records[j] == prev[i];
                    assert(records[j] == cur[i]);
                }
            }
        } else {
            assert forall|i: int| 0 <= i < prev.len() implies exists|j: int|
                0 <= j < n && records[j] == #[trigger] prev[i] by {
                let j = choose|j: int| 0 <= j < n - 1 && records[j] == prev[i];
            }
        }
    }
}

/// Once a run is final its elapsed time is frozen: later reports of its cell
/// do not change it.
pub proof fn law_final_elapsed_is_frozen<R>(
    new_run: WorkflowRun<R>,
    run: WorkflowRun<R>,
    status: CodeCellStatus,
    response: Option<R>,
    now_ms: u64,
)
    requires
        is_updated_run(new_run, run, status, response, now_ms),
        run.terminal_elapsed_ms is Some,
    ensures
        new_run.terminal_elapsed_ms == run.terminal_elapsed_ms,
{
}

/// Reporting the same status twice changes nothing the second time: the
/// status and the elapsed time stay as the first report left them, so the
/// second report is not a change of status.
pub proof fn law_repeated_report_changes_nothing<R>(
    first: WorkflowRun<R>,
    second: WorkflowRun<R>,
    run: WorkflowRun<R>,
    status: CodeCellStatus,
    first_response: Option<R>,
    second_response: Option<R>,
    first_ms: u64,
    second_ms: u64,
)
    requires
        is_updated_run(first, run, status, first_response, first_ms),
        is_updated_run(second, first, status, second_response, second_ms),
    ensures
        first.status == run_status_of(status),
        second.status == first.status,
        second.terminal_elapsed_ms == first.terminal_elapsed_ms,
{
}

} // verus!

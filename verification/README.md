# codex_workflow

Saved multi-agent workflows for a coding agent, with their logic verified by
Verus: parsing the `export const meta = { name, description }` header of a
workflow file, compiling the file into a program for the isolated code-mode
runtime, the rules on where workflow files may live, the registry of managed
runs and the agents they own, the checks, plans and messages of the
`run_workflow`, `wait_workflow`, `list_workflows` and `control_workflow` tools
(`app/` performs their steps against the runtime), the completion watcher,
the dispatch broker that routes a cell's calls to its turn, and the
`/workflows` command of the chat widget.

- `src/` is the verified library. Each public function states what it returns
  in its `ensures`; `src/laws.rs` and the `law_` functions of `src/dispatch.rs`
  state the properties that span several operations.
- `tests/` exercises the library on concrete values.
- `app/` connects the library to serde, the file system, the clock and the
  threads that wait on running cells.

//! The fixed JavaScript text of a compiled workflow program, in the pieces
//! that surround the values filled in at compile time.

use vstd::prelude::*;

verus! {

/// Opens the `args` binding.
pub const ARGS_DECL: &'static str = r#"const args = "#;

/// Closes `args` and opens the frozen `meta` binding.
pub const META_DECL: &'static str = r#";
const meta = Object.freeze("#;

/// Closes `meta` and opens the private copy of the validated metadata.
pub const VALIDATED_META_DECL: &'static str = r#");
const __validatedMeta = "#;

/// Opens the private binding of the workflow body source.
pub const BODY_DECL: &'static str = r#";
const __workflowBody = "#;

/// Captures the runtime globals and opens the agent API version binding.
pub const RUNTIME_BINDINGS: &'static str = r#";
const __workflowTools = tools;
const __workflowText = text;
const __workflowYieldControl = yield_control;
const __workflowAgentApi = "#;

/// Opens the spawn tool lookup.
pub const SPAWN_LOOKUP: &'static str = r#";
const __workflowSpawnAgent = __workflowTools["#;

/// Opens the wait tool lookup.
pub const WAIT_LOOKUP: &'static str = r#"];
const __workflowWaitAgent = __workflowTools["#;

/// Opens the optional list tool binding.
pub const LIST_DECL: &'static str = r#"];
const __workflowListAgents = "#;

/// Looks the list tool up when it is present.
pub const LIST_LOOKUP: &'static str = r#" === null ? undefined : __workflowTools["#;

/// Opens the stop tool lookup.
pub const STOP_LOOKUP: &'static str = r#"];
const __workflowStopAgent = __workflowTools["#;

/// The helper runtime (`agent`, `parallel`, `pipeline`, `phase`) and the call of the isolated body.
pub const RUNTIME_HELPERS: &'static str = r#"];
const __WorkflowPromise = Promise;
const __objectEntries = Object.entries;
const __objectValues = Object.values;
const __hasOwn = Function.call.bind(Object.prototype.hasOwnProperty);
const __now = Date.now.bind(Date);
let __workflowAgentCount = 0;
let __workflowActiveAgents = 0;
const __workflowAgentWaiters = [];
const __workflowMaxAgents = 64;
const __workflowMaxConcurrency = 4;
const __workflowMaxPromptBytes = 9 * 1024;
const __workflowMaxAgentTimeMs = 30 * 60 * 1000;

for (const name of [
  "tools", "ALL_TOOLS", "text", "image", "generatedImage", "store", "load",
  "notify", "yield_control", "exit", "clearTimeout", "setTimeout",
]) {
  delete globalThis[name];
}

function __utf8Length(value) {
  let length = 0;
  for (const character of value) {
    const codePoint = character.codePointAt(0);
    length += codePoint <= 0x7f ? 1 : codePoint <= 0x7ff ? 2 : codePoint <= 0xffff ? 3 : 4;
  }
  return length;
}

async function __withAgentPermit(work) {
  if (__workflowActiveAgents >= __workflowMaxConcurrency) {
    await new __WorkflowPromise(resolve => __workflowAgentWaiters.push(resolve));
  }
  __workflowActiveAgents += 1;
  try {
    return await work();
  } finally {
    __workflowActiveAgents -= 1;
    const next = __workflowAgentWaiters.shift();
    if (next) next();
  }
}

function __agentStatus(status) {
  if (status && typeof status === "object" && "completed" in status) {
    return { kind: "completed", value: status.completed };
  }
  if (status && typeof status === "object" && "errored" in status) {
    return { kind: "errored", value: status.errored };
  }
  return { kind: String(status), value: undefined };
}

function __requireAgentTool(tool, name) {
  if (typeof tool !== "function") throw new Error(`workflow agent tool ${name} is unavailable`);
  return tool;
}

function __validateSchema(value, schema, path = "result") {
  if (!schema || typeof schema !== "object") return;
  const type = schema.type;
  const valid = type === undefined ||
    (type === "array" && Array.isArray(value)) ||
    (type === "object" && value !== null && typeof value === "object" && !Array.isArray(value)) ||
    (type === "string" && typeof value === "string") ||
    (type === "number" && typeof value === "number") ||
    (type === "integer" && Number.isInteger(value)) ||
    (type === "boolean" && typeof value === "boolean") ||
    (type === "null" && value === null);
  if (!valid) throw new Error(`${path} does not match schema type ${type}`);
  if (type === "object") {
    for (const key of schema.required || []) {
      if (!__hasOwn(value, key)) throw new Error(`${path} is missing required property ${key}`);
    }
    for (const [key, child] of __objectEntries(schema.properties || {})) {
      if (__hasOwn(value, key)) __validateSchema(value[key], child, `${path}.${key}`);
    }
  }
  if (type === "array" && schema.items) {
    value.forEach((item, index) => __validateSchema(item, schema.items, `${path}[${index}]`));
  }
}

async function agent(prompt, options = {}) {
  if (typeof prompt !== "string" || !prompt.trim()) throw new Error("agent prompt must be non-empty");
  __workflowAgentCount += 1;
  if (__workflowAgentCount > __workflowMaxAgents) throw new Error("workflow exceeded the 64-agent limit");
  const schemaInstruction = options.schema
    ? `\n\nReturn only JSON matching this schema (no markdown fences): ${JSON.stringify(options.schema)}`
    : "";
  const modelOverride = options.model !== undefined || options.reasoningEffort !== undefined;
  const forkTurns = options.forkTurns === undefined
    ? (modelOverride ? "none" : "all")
    : String(options.forkTurns);
  if (forkTurns !== "none" && modelOverride) {
    throw new Error("model and reasoningEffort overrides require forkTurns: \"none\"");
  }
  const labelPrefix = options.label === undefined
    ? ""
    : `[Workflow task: ${String(options.label)}]\n\n`;
  const message = labelPrefix + prompt + schemaInstruction;
  if (__utf8Length(message) > __workflowMaxPromptBytes) {
    throw new Error("agent prompt exceeds the 9216-byte limit");
  }
  const timeoutMs = options.timeoutMs ?? __workflowMaxAgentTimeMs;
  if (!Number.isInteger(timeoutMs) || timeoutMs < 1000 || timeoutMs > __workflowMaxAgentTimeMs) {
    throw new Error("agent timeoutMs must be an integer from 1000 through 1800000");
  }
  return __withAgentPermit(async () => {
    await __workflowYieldControl();
    const spawnAgent = __requireAgentTool(__workflowSpawnAgent, "spawn_agent");
    const waitAgent = __requireAgentTool(__workflowWaitAgent, "wait_agent");
    const stopAgent = __requireAgentTool(__workflowStopAgent, "stop_agent");
    const spawned = __workflowAgentApi === "v1"
      ? await spawnAgent({
          message,
          agent_type: undefined,
          fork_context: forkTurns !== "none",
          model: options.model,
          reasoning_effort: options.reasoningEffort,
        })
      : await spawnAgent({
          task_name: `workflow_agent_${__workflowAgentCount}`,
          message,
          fork_turns: forkTurns,
          model: options.model,
          reasoning_effort: options.reasoningEffort,
        });
    const target = __workflowAgentApi === "v1" ? spawned.agent_id : spawned.task_name;
    const deadline = __now() + timeoutMs;
    let timedOut = false;
    try {
      while (true) {
        const remainingMs = deadline - __now();
        if (remainingMs <= 0) {
          timedOut = true;
          throw new Error(`agent timed out after ${timeoutMs} ms`);
        }
        const waitMs = __workflowAgentApi === "v1"
          ? Math.min(30000, Math.max(1000, remainingMs))
          : 10000;
        const waited = __workflowAgentApi === "v1"
          ? await waitAgent({ targets: [target], timeout_ms: waitMs })
          : await waitAgent({ timeout_ms: waitMs });
        if (waited.timed_out) continue;
        let rawStatus;
        if (__workflowAgentApi === "v1") {
          rawStatus = __objectValues(waited.status)[0];
        } else {
          const listAgents = __requireAgentTool(__workflowListAgents, "list_agents");
          const snapshot = await listAgents({});
          const listed = (snapshot.agents || []).find(agent => agent.agent_name === target);
          if (!listed) continue;
          rawStatus = listed.agent_status;
        }
        const status = __agentStatus(rawStatus);
        if (status.kind === "completed") {
          const output = status.value ?? "";
          if (!options.schema) return output;
          let parsed;
          try { parsed = JSON.parse(output); }
          catch (error) { throw new Error(`agent returned invalid JSON: ${error}`); }
          __validateSchema(parsed, options.schema);
          return parsed;
        }
        if (status.kind === "errored") throw new Error(`agent failed: ${status.value}`);
        if (["pending_init", "running", "interrupted"].includes(status.kind)) continue;
        throw new Error(`agent ended with status ${status.kind}`);
      }
    } finally {
      if (__workflowAgentApi === "v1" || timedOut) {
        try { await stopAgent({ target }); } catch (_) {}
      }
    }
  });
}

async function pipeline(items, worker, options = {}) {
  if (!Array.isArray(items)) throw new Error("pipeline items must be an array");
  if (typeof worker !== "function") throw new Error("pipeline worker must be a function");
  const concurrency = options.concurrency ?? __workflowMaxConcurrency;
  if (!Number.isInteger(concurrency) || concurrency < 1 || concurrency > __workflowMaxConcurrency) {
    throw new Error("pipeline concurrency must be an integer from 1 through 4");
  }
  const results = new Array(items.length);
  let nextIndex = 0;
  async function runWorker() {
    while (true) {
      const index = nextIndex++;
      if (index >= items.length) return;
      results[index] = await worker(items[index], index);
    }
  }
  await Promise.all(Array.from({ length: Math.min(concurrency, items.length) }, runWorker));
  return results;
}

async function parallel(tasks, options = {}) {
  if (!Array.isArray(tasks) || tasks.some(task => typeof task !== "function")) {
    throw new Error("parallel tasks must be an array of functions");
  }
  return pipeline(tasks, task => task(), options);
}

async function phase(name, work) {
  if (typeof name !== "string" || !name.trim()) throw new Error("phase name must be non-empty");
  if (typeof work !== "function") throw new Error("phase work must be a function");
  return work();
}

const __AsyncFunction = (async function () {}).constructor;
const __workflowMain = new __AsyncFunction(
  "args", "meta", "agent", "parallel", "pipeline", "phase", __workflowBody,
);
const __workflowResult = await __workflowMain(args, meta, agent, parallel, pipeline, phase);
__workflowText(JSON.stringify({ meta: __validatedMeta, result: __workflowResult }, null, 2));
"#;

} // verus!

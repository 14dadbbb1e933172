# sparrow_agent

A command-line agent for DeepSeek chat completions with tools (web search,
a guarded bash tool, MCP filesystem tools, sub-agents) and structured
traces, written as a Verus library with a thin program around it.

- `src/` is the verified library: the agent loop's decisions, the request
  context (transcript, summaries, working memory, token budget), the
  streaming decoder and accumulator, the bash risk rules and approval gate,
  the tool registry and its trace payloads, the trace store and the HTTP
  API's decisions, JSON values and trace archives with their compaction.
  Calls into outside crates (`serde_json`, `sha2`, `globset`, `indicatif`,
  `unicode-width`, `ulid`) stand behind small trusted wrappers whose
  contracts say what the library relies on.
- `tests/` exercises the library on concrete values.
- `app/` is the program: the terminal, the HTTP client for the model, the
  MCP stdio client, process spawning for the bash tool, and configuration
  from the environment.

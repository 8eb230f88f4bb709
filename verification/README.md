# devops_agent

The core of a DevOps agent backend, written in Verus: each function of the library
carries a contract that Verus proves.

- `src/llm`: the layered prompt builder and token estimates, provider configuration
  (masked keys, the router plan), model routing, the request bodies of the OpenAI,
  OpenAI-compatible and Anthropic APIs and the reading of their responses, structured
  output (the request of each attempt and the repair of model text), and the tool-use
  loop (retry policy, loop detection, signal voting, tool registry, parallel-safety
  partition, DAG planning, streamed-answer folding).
- `src/sandbox`: path validation, file-system isolation, network command blocking, back-end
  selection, process output shaping, file read and write commands, and the CubeSandbox
  Connect stream.
- `src/security`: roles, the policy engine with its default table, and the audit log.
- `src/token`: token tracking against a budget, the four-layer context window, local and
  LLM summaries.
- `src/memory`: the short-term memory buffer.
- `src/permissions`: project access control and its configuration keys.
- `src/json.rs`, `src/text.rs`: the JSON value model with its serializer, and the text
  operations (including base64) the rest builds on.

`app/` holds what Verus does not see: the program entry point, HTTP and process I/O,
SQLite storage, the loops that wait on providers and tools, the conversions to and from
`serde_json`, and the few computations done in floating point.

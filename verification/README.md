# pooprusteek

The logic of a terminal chat client for language models, verified with Verus:
tool-call parsing and the streamed visible text, the agent turn's decisions
(retries, tool routing, the compaction ladder), conversation histories and the
multi-chat store, goal mode, the prompt editor, and the key handling of the
chat, MCP, `/mcp add`, provider, search and autocomplete views and of the
approval and confirm dialogs, each with a contract over a mathematical model.

- `src/` — the verified library. `text`, `string_map` and `json` are the
  shared vocabulary; `agent/` holds the turn's decisions, `app/` the chat state
  and the key handlers, `acp/` the ACP request routing.
- `app/` — the ordinary Rust around it: the ACP line loop, the agent turn loop
  and tool execution driven by the library's decisions, stream collection.
- `tests/` — scenario tests, run against the compiled library.

The model, the tools, the terminal and the disk stay outside the library; calls
into serde_json, uuid, chrono, reqwest and std that the logic needs go through
small trusted wrappers whose contracts name what the outside code returns.

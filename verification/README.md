# memos_app

The backend core of the LocalFragNote desktop note application, written in
Verus: the rules of user tools and AI skills, the workspace registry, the
agent-side helpers (tool definitions, output shaping, memo searches), the MCP
prompt texts, the LAN peer cache and the preview-process decisions, each with
a contract that Verus proves.

Layout:

- `src/` — the verified library, one module per concern (`tool`, `skill`,
  `builtin_skills`, `workspace`, `commands`, `ai_tools`, `mcp`, `mcp_prompts`,
  `lan`, `officecli_watch`, `pending_confirmations`, `agent_loop`, `shutdown`,
  `clock`, `text`, `error`). Laws that relate several functions are public
  proof functions named `law_*`.
- `tests/` — tests of the library, run against the real outside crates.
- `app/` — the program around the library: SQLite stores, the registry file,
  running user tools, the `officecli watch` process, the iroh endpoint with
  mDNS discovery and the JSON-RPC side of the MCP server.

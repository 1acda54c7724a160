# darkshell

The core of the DarkShell sandbox tooling, verified with Verus.

- `src/` is the verified library. Blueprints: document checks
  (`blueprint_parse`), schema validation (`schema`), orchestration plans
  (`orchestrator`) and the run of a plan with its rollback (`run`). MCP
  bridges: tool policies (`policy`), credentials (`credential`),
  registrations (`registry`), bridge decisions (`bridge`), JSON-RPC
  messages (`jsonrpc`), tool-call logs
  (`logging`), in-sandbox servers (`in_sandbox`) and the `mcp` commands
  (`mcp_cli`). Observation: events (`event`), filters (`filter`), log-line
  parsing (`parser`), inference-log redaction (`inference_log`) and the watch
  stream (`watch`). CLI transfers and SSH: sizes and command lines
  (`transfer`, `exec`, `upload_diff`), SSH config files (`ssh_config`) and the
  CONNECT exchange (`connect`). `text`, `numparse`, `ip`, `named_map` and
  `delay` are the string, number, address, map and time-span foundations
  they share.
- `tests/` runs the library on concrete values.
- `app/` is the ordinary Rust around it: files, processes, sockets, the
  clock, the terminal, and YAML/JSON through serde.

Every public function of `src/` states what it returns in its `ensures`;
the laws that relate several functions (rollback order, policy precedence,
listing order, what a registration path can reach, ...) are public proof
functions next to the code they speak of.

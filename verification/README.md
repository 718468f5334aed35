# heretek

A local-first coding harness that wraps a model in deterministic verification gates.
Gate logic, report semantics, diff-aware baselines, shadow-workspace plans, tool-call
repair and the agent's session state machine are verified with Verus; the command-line
program around them is ordinary Rust.

## Layout

- `src/` — the verified library.
  - `diagnostic`, `report`, `baseline`, `verify`: error frames, gate reports, baseline
    fingerprints matched as a multiset, and whether a run counts as evidence.
  - `stage`, `pipeline`, `process`, `files`, `config`, `profile`, `decide`: gate contexts,
    the ordered pipeline, tool invocations, changed-file selection and ignore patterns,
    configuration checks and risk routing.
  - `stages/`: each gate stage as a plan (what to run) and an interpretation (what its
    output means): tree-sitter syntax, biome, tsgo/tsc, vitest/jest, ast-grep, semgrep,
    knip, osv-scanner.
  - `shadow`: the git commands and metadata of shadow workspaces.
  - `model/`: chat types, endpoint replies, retries and lane routing.
  - `agent/`: prompt zones, tool-call repair, the workspace tools and the session state.
  - `cli`, `mcp`: what the commands and MCP tools print and answer.
  - `json`, `text`: JSON values read with serde_json, and text helpers.
- `app/` — the `heretek` binary: argument parsing (clap), the filesystem, processes,
  HTTP (reqwest) and the MCP transport (rmcp).
- `tests/` — tests of the library.

Properties that span functions are stated as `law_*` proof functions next to the code
they are about.

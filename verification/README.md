# fabro

The verified core of the Fabro workflow platform, written in Rust and proved with Verus.

- `src/` is the library. Every executable function states what it returns or changes, and
  Verus proves it. Properties that relate several functions are public proof functions
  beside them.
- `tests/` runs the library on concrete values, with the real outside crates.
- `app/` is ordinary Rust around the library: the database, the MCP server, the HTTP
  endpoints, sandboxes and clocks. It performs outside work and hands plain values to the
  library.

## What the library covers

| Area | Modules |
| --- | --- |
| Output of stages | `structured_output`, `json_objects`, `json`, `outcome` |
| Execution of stages | `stage_execution`, `node_attempt` |
| Compiling runs | `run_compiler`, `run_assembly`, `run_materialization`, `validate` |
| Models | `model_ref`, `model_resolution`, `reasoning`, `credentials` |
| Publishing | `publish`, `pull_requests`, `pull_request_api`, `pull_request_queue` |
| Agents and their tools | `native_tool`, `tool_schema`, `kimi_tools`, `kimi`, `profiles` |
| Checking workflow graphs | `graph`, `lint`, `command_requires_script`, `script_prompt_conflict`, `parallel_branch`, `parallel_branch_inert_attribute` |
| The server's surroundings | `clone_retry`, `database`, `mcp_server` |
| Foundations | `text`, `text_map`, `text_set` |

## What is trusted

Calls into `serde_json` and `jsonschema` stand behind small wrappers in `json`, and two
string operations of the standard library in `text`. Their contracts are believed; each
says above it what it claims of the outside function.

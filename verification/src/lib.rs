//! Verified core of the Fabro workflow platform.
//!
//! Workflows are graphs whose nodes run agents, commands and prompts. This library holds
//! the rules of that platform: what a stage's output may look like and what it does to
//! the run, which models and settings a run gets, how finished runs are published and
//! how their pull requests are worked off, which tools an agent sees and what their
//! calls mean, and what is wrong with a workflow graph.
//!
//! Outside work (reading files, asking GitHub or a model catalog, running commands) is
//! the caller's. Where a rule needs it, the rule is cut into steps: each takes what the
//! last piece of outside work gave and says what comes next.

pub mod clone_retry;
pub mod command_requires_script;
pub mod credentials;
pub mod database;
pub mod graph;
pub mod json;
pub mod json_objects;
pub mod kimi;
pub mod kimi_tools;
pub mod lint;
pub mod mcp_server;
pub mod model_ref;
pub mod model_resolution;
pub mod native_tool;
pub mod node_attempt;
pub mod outcome;
pub mod parallel_branch;
pub mod parallel_branch_inert_attribute;
pub mod profiles;
pub mod publish;
pub mod pull_request_api;
pub mod pull_request_queue;
pub mod pull_requests;
pub mod reasoning;
pub mod run_assembly;
pub mod run_compiler;
pub mod run_materialization;
pub mod script_prompt_conflict;
pub mod stage_execution;
pub mod structured_output;
pub mod text;
pub mod text_map;
pub mod text_set;
pub mod tool_schema;
pub mod validate;

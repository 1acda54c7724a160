//! Verified core of the DarkShell sandbox tooling: blueprint validation and
//! orchestration planning, MCP bridge policy and registry rules, and the
//! observability event filters and redaction pipeline.

pub mod text;
pub mod delay;
pub mod named_map;
pub mod logging;
pub mod numparse;
pub mod ip;
pub mod schema;
pub mod blueprint_parse;
pub mod orchestrator;
pub mod run;
pub mod policy;
pub mod bridge_error;
pub mod credential;
pub mod registry;
pub mod bridge;
pub mod jsonrpc;
pub mod event;
pub mod inference_log;
pub mod observe_error;
pub mod filter;
pub mod watch;
pub mod transfer;
pub mod upload_diff;
pub mod ssh_config;
pub mod connect;
pub mod exec;
pub mod parser;
pub mod mcp_cli;
pub mod in_sandbox;

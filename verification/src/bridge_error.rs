//! Errors of the MCP bridge. Every message says what failed, why, and how
//! to fix it. Credential values never appear in a message.

use vstd::prelude::*;
use crate::text::{decimal, push_str_chars, u64_to_decimal};

verus! {

/// Errors of the MCP bridge daemon.
#[derive(Debug)]
pub enum BridgeError {
    /// MCP server command failed to start (binary not found, permission denied, etc.).
    StartupFailed { command: String, reason: String },
    /// All ports in the configured range are occupied.
    NoAvailablePort { start: u16, end: u16 },
    /// A specific port is already in use.
    PortInUse { port: u16 },
    /// Credential retrieval failed — gateway provider API unavailable.
    ProviderUnavailable,
    /// Provider exists but the requested credential key is missing.
    CredentialNotFound { provider: String, key: String },
    /// MCP server returned invalid JSON-RPC response.
    InvalidJsonRpc { detail: String },
    /// MCP server did not respond to initialize within timeout.
    InitializeTimeout { timeout_secs: u64 },
    /// MCP server subprocess crashed and max retries exhausted.
    MaxRetriesExhausted { attempts: u32, last_exit: String },
    /// Sandbox not found.
    SandboxNotFound { name: String, available: String },
    /// A bridge is already running for this sandbox+server combination.
    AlreadyRunning { sandbox: String, server: String, pid: u32 },
    /// Registration file I/O error.
    RegistrationIo { reason: String },
    /// HTTP server error.
    HttpServer { reason: String },
    /// Subprocess I/O error.
    SubprocessIo { reason: String },
    /// JSON serialization/deserialization error.
    Json { reason: String },
    /// Tool call denied by policy.
    ToolDenied { tool: String, server: String, reason: String },
    /// Policy configuration is invalid.
    InvalidPolicy { reason: String },
    /// Policy file I/O error.
    PolicyIo { reason: String },
}

/// The message of a bridge error.
pub open spec fn bridge_error_text(e: BridgeError) -> Seq<char> {
    match e {
        BridgeError::StartupFailed { command, reason } => "failed to start MCP server: "@ + reason@
            + ". Command attempted: `"@ + command@
            + "`. Ensure the command is installed and accessible on the host PATH"@,
        BridgeError::NoAvailablePort { start, end } => "no available ports in range "@ + decimal(
            start as nat,
        ) + "-"@ + decimal(end as nat)
            + " for MCP bridge. Free a port with: lsof -i :<port> -sTCP:LISTEN | kill <PID>"@,
        BridgeError::PortInUse { port } => "port "@ + decimal(port as nat) + " is already in use"@,
        BridgeError::ProviderUnavailable =>
            "cannot retrieve credentials: gateway provider API unavailable. Check gateway status with: darkshell status"@,
        BridgeError::CredentialNotFound { provider, key } => "provider '"@ + provider@
            + "' exists but credential '"@ + key@
            + "' not found. Set with: darkshell provider create --name "@ + provider@
            + " --credential "@ + key@ + "=<value>"@,
        BridgeError::InvalidJsonRpc { detail } => "MCP server returned invalid JSON-RPC: "@
            + detail@,
        BridgeError::InitializeTimeout { timeout_secs } =>
            "MCP server did not respond to initialize within "@ + decimal(timeout_secs as nat)
            + "s. Check that the command produces JSON-RPC output on stdout"@,
        BridgeError::MaxRetriesExhausted { attempts, last_exit } => "MCP server crashed "@
            + decimal(attempts as nat) + " times and max retries exhausted. Last exit: "@
            + last_exit@ + ". Check server logs for crash cause"@,
        BridgeError::SandboxNotFound { name, available } => "sandbox '"@ + name@
            + "' not found. Available sandboxes: "@ + available@,
        BridgeError::AlreadyRunning { sandbox, server, pid } =>
            "bridge already running for sandbox '"@ + sandbox@ + "' server '"@ + server@
            + "' (PID "@ + decimal(pid as nat) + "). Stop it first with: darkshell mcp remove "@
            + sandbox@ + " "@ + server@,
        BridgeError::RegistrationIo { reason } => "registration file error: "@ + reason@,
        BridgeError::HttpServer { reason } => "HTTP server error: "@ + reason@,
        BridgeError::SubprocessIo { reason } => "subprocess I/O error: "@ + reason@,
        BridgeError::Json { reason } => "JSON error: "@ + reason@,
        BridgeError::ToolDenied { tool, server, reason } => "tool '"@ + tool@
            + "' denied by policy for server '"@ + server@ + "': "@ + reason@
            + ". Update the policy with: darkshell policy set --mcp-tools"@,
        BridgeError::InvalidPolicy { reason } => "invalid MCP tool policy: "@ + reason@,
        BridgeError::PolicyIo { reason } => "policy file error: "@ + reason@,
    }
}

fn push_num(s: &mut String, n: u64)
    ensures
        final(s)@ == old(s)@ + decimal(n as nat),
{
    let d = u64_to_decimal(n);
    push_str_chars(s, d.as_str());
}

fn push(s: &mut String, t: &str)
    ensures
        final(s)@ == old(s)@ + t@,
{
    push_str_chars(s, t);
}

impl BridgeError {
    /// The error's message.
    pub fn to_display_string(&self) -> (r: String)
        ensures
            r@ == bridge_error_text(*self),
    {
        let mut s = String::new();
        match self {
            BridgeError::StartupFailed { command, reason } => {
                push(&mut s, "failed to start MCP server: ");
                push(&mut s, reason.as_str());
                push(&mut s, ". Command attempted: `");
                push(&mut s, command.as_str());
                push(&mut s, "`. Ensure the command is installed and accessible on the host PATH");
            },
            BridgeError::NoAvailablePort { start, end } => {
                push(&mut s, "no available ports in range ");
                push_num(&mut s, *start as u64);
                push(&mut s, "-");
                push_num(&mut s, *end as u64);
                push(
                    &mut s,
                    " for MCP bridge. Free a port with: lsof -i :<port> -sTCP:LISTEN | kill <PID>",
                );
            },
            BridgeError::PortInUse { port } => {
                push(&mut s, "port ");
                push_num(&mut s, *port as u64);
                push(&mut s, " is already in use");
            },
            BridgeError::ProviderUnavailable => {
                push(
                    &mut s,
                    "cannot retrieve credentials: gateway provider API unavailable. Check gateway status with: darkshell status",
                );
            },
            BridgeError::CredentialNotFound { provider, key } => {
                push(&mut s, "provider '");
                push(&mut s, provider.as_str());
                push(&mut s, "' exists but credential '");
                push(&mut s, key.as_str());
                push(&mut s, "' not found. Set with: darkshell provider create --name ");
                push(&mut s, provider.as_str());
                push(&mut s, " --credential ");
                push(&mut s, key.as_str());
                push(&mut s, "=<value>");
            },
            BridgeError::InvalidJsonRpc { detail } => {
                push(&mut s, "MCP server returned invalid JSON-RPC: ");
                push(&mut s, detail.as_str());
            },
            BridgeError::InitializeTimeout { timeout_secs } => {
                push(&mut s, "MCP server did not respond to initialize within ");
                push_num(&mut s, *timeout_secs);
                push(&mut s, "s. Check that the command produces JSON-RPC output on stdout");
            },
            BridgeError::MaxRetriesExhausted { attempts, last_exit } => {
                push(&mut s, "MCP server crashed ");
                push_num(&mut s, *attempts as u64);
                push(&mut s, " times and max retries exhausted. Last exit: ");
                push(&mut s, last_exit.as_str());
                push(&mut s, ". Check server logs for crash cause");
            },
            BridgeError::SandboxNotFound { name, available } => {
                push(&mut s, "sandbox '");
                push(&mut s, name.as_str());
                push(&mut s, "' not found. Available sandboxes: ");
                push(&mut s, available.as_str());
            },
            BridgeError::AlreadyRunning { sandbox, server, pid } => {
                push(&mut s, "bridge already running for sandbox '");
                push(&mut s, sandbox.as_str());
                push(&mut s, "' server '");
                push(&mut s, server.as_str());
                push(&mut s, "' (PID ");
                push_num(&mut s, *pid as u64);
                push(&mut s, "). Stop it first with: darkshell mcp remove ");
                push(&mut s, sandbox.as_str());
                push(&mut s, " ");
                push(&mut s, server.as_str());
            },
            BridgeError::RegistrationIo { reason } => {
                push(&mut s, "registration file error: ");
                push(&mut s, reason.as_str());
            },
            BridgeError::HttpServer { reason } => {
                push(&mut s, "HTTP server error: ");
                push(&mut s, reason.as_str());
            },
            BridgeError::SubprocessIo { reason } => {
                push(&mut s, "subprocess I/O error: ");
                push(&mut s, reason.as_str());
            },
            BridgeError::Json { reason } => {
                push(&mut s, "JSON error: ");
                push(&mut s, reason.as_str());
            },
            BridgeError::ToolDenied { tool, server, reason } => {
                push(&mut s, "tool '");
                push(&mut s, tool.as_str());
                push(&mut s, "' denied by policy for server '");
                push(&mut s, server.as_str());
                push(&mut s, "': ");
                push(&mut s, reason.as_str());
                push(&mut s, ". Update the policy with: darkshell policy set --mcp-tools");
            },
            BridgeError::InvalidPolicy { reason } => {
                push(&mut s, "invalid MCP tool policy: ");
                push(&mut s, reason.as_str());
            },
            BridgeError::PolicyIo { reason } => {
                push(&mut s, "policy file error: ");
                push(&mut s, reason.as_str());
            },
        }
        s
    }
}

} // verus!

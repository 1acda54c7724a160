//! The decisions of the MCP bridge daemon: its configuration, restart
//! backoff, which HTTP requests it accepts, what it does with a JSON-RPC
//! request, and how its errors become HTTP replies.
//!
//! The daemon itself (subprocess, sockets, HTTP server) runs around these
//! functions; each one here takes plain values and returns plain values.

use vstd::prelude::*;
use crate::delay::Delay;
use crate::bridge_error::{bridge_error_text, BridgeError};
use crate::credential::CredentialSpec;
use crate::numparse::{parse_u64, parse_unsigned};
use crate::policy::{evaluate_tool_access, tool_access, McpToolPolicy, PolicyDecision};
use crate::registry::{BridgeRegistration, BridgeStatus, Transport};
use crate::text::{
    clone_strings, decimal, push_char, push_str_chars, str_eq, to_owned_string, u64_to_decimal,
};

verus! {

// ---------------------------------------------------------------------------
// Configuration
// ---------------------------------------------------------------------------

/// Port range start for auto-selection.
pub const PORT_RANGE_START: u16 = 9100;

/// Port range end for auto-selection.
pub const PORT_RANGE_END: u16 = 9199;

/// Maximum restart attempts before giving up.
pub const MAX_RESTART_ATTEMPTS: u32 = 3;

/// Timeout for the MCP server initialize handshake, in seconds.
pub const INITIALIZE_TIMEOUT_SECS: u64 = 60;

/// Maximum request body size (1 MB).
pub const MAX_BODY_SIZE: u64 = 1048576;

/// Configuration for starting an MCP bridge.
#[derive(Debug, Clone)]
pub struct BridgeConfig {
    /// Sandbox name this bridge serves.
    pub sandbox: String,
    /// MCP server name (e.g., "perplexity").
    pub server_name: String,
    /// Command and arguments to start the MCP server.
    pub command: Vec<String>,
    /// Credential specs to resolve and inject.
    pub credentials: Vec<CredentialSpec>,
    /// Config directory (by default `~/.config`).
    pub config_dir: String,
    /// Port range start (by default `PORT_RANGE_START`).
    pub port_start: u16,
    /// Port range end (by default `PORT_RANGE_END`).
    pub port_end: u16,
}

impl BridgeConfig {
    /// Create a new bridge configuration with the default port range and no
    /// credentials. `config_dir` is the config directory (the caller's
    /// `~/.config` by default).
    pub fn new(sandbox: String, server_name: String, command: Vec<String>, config_dir: String) -> (r:
        Self)
        ensures
            r.sandbox == sandbox,
            r.server_name == server_name,
            r.command == command,
            r.credentials@.len() == 0,
            r.config_dir == config_dir,
            r.port_start == PORT_RANGE_START,
            r.port_end == PORT_RANGE_END,
    {
        BridgeConfig {
            sandbox,
            server_name,
            command,
            credentials: Vec::new(),
            config_dir,
            port_start: PORT_RANGE_START,
            port_end: PORT_RANGE_END,
        }
    }
}

// ---------------------------------------------------------------------------
// Restart backoff
// ---------------------------------------------------------------------------

/// Seconds to wait before restart attempt `attempt` (0-indexed): 1, 2, 4.
pub open spec fn backoff_secs(attempt: u32) -> u64 {
    if attempt == 0 {
        1
    } else if attempt == 1 {
        2
    } else {
        4
    }
}

/// Seconds to wait before a restart attempt, or `None` once
/// `MAX_RESTART_ATTEMPTS` attempts have been made.
pub fn backoff_seconds(attempt: u32) -> (r: Option<u64>)
    ensures
        r == if attempt < MAX_RESTART_ATTEMPTS {
            Some(backoff_secs(attempt))
        } else {
            None::<u64>
        },
{
    if attempt == 0 {
        Some(1)
    } else if attempt == 1 {
        Some(2)
    } else if attempt == 2 {
        Some(4)
    } else {
        None
    }
}

/// Backoff duration for a restart attempt (0-indexed): 1 s, 2 s, 4 s; `None`
/// once `MAX_RESTART_ATTEMPTS` attempts have been made, meaning give up.
pub fn backoff_duration(attempt: u32) -> (r: Option<Delay>)
    ensures
        r is Some <==> attempt < MAX_RESTART_ATTEMPTS,
        r matches Some(d) ==> d.as_nanos() == backoff_secs(attempt) * 1_000_000_000,
{
    match backoff_seconds(attempt) {
        Some(s) => Some(Delay::from_secs(s)),
        None => None,
    }
}

/// The backoff doubles from one attempt to the next and the three waits
/// add up to seven seconds.
pub proof fn lemma_backoff_doubles()
    ensures
        forall|a: u32| 0 < a < MAX_RESTART_ATTEMPTS ==> #[trigger] backoff_secs(a) == 2 * backoff_secs(
            (a - 1) as u32,
        ),
        backoff_secs(0) + backoff_secs(1) + backoff_secs(2) == 7,
{
}

/// Where a restart after a crash stands: the attempts made so far and the
/// reason the last one (or the crash) gave.
#[derive(Debug)]
pub struct RestartState {
    /// Attempts made so far.
    pub attempt: u32,
    /// The crash reason, then the error of the last failed attempt.
    pub last_exit: String,
}

/// What to do next in a restart.
#[derive(Debug)]
pub enum RestartStep {
    /// Mark the registration as starting, wait `delay`, and spawn again.
    Retry { attempt: u32, delay: Delay },
    /// Mark the registration as failed and report this error.
    GiveUp(BridgeError),
}

impl RestartState {
    /// The state right after a crash.
    pub fn after_crash(crash_reason: &str) -> (r: RestartState)
        ensures
            r.attempt == 0,
            r.last_exit@ == crash_reason@,
    {
        RestartState { attempt: 0, last_exit: to_owned_string(crash_reason) }
    }

    /// The next step: retry with the attempt's backoff, or give up after
    /// `MAX_RESTART_ATTEMPTS` failed attempts.
    pub fn next_step(&self) -> (r: RestartStep)
        requires
            self.attempt <= MAX_RESTART_ATTEMPTS,
        ensures
            self.attempt < MAX_RESTART_ATTEMPTS ==> (r matches RestartStep::Retry { attempt, delay }
                && attempt == self.attempt && delay.as_nanos() == backoff_secs(self.attempt)
                * 1_000_000_000),
            self.attempt == MAX_RESTART_ATTEMPTS ==> (r matches RestartStep::GiveUp(
                BridgeError::MaxRetriesExhausted { attempts, last_exit },
            ) && attempts == MAX_RESTART_ATTEMPTS && last_exit@ == self.last_exit@),
    {
        match backoff_duration(self.attempt) {
            Some(delay) => RestartStep::Retry { attempt: self.attempt, delay },
            None => RestartStep::GiveUp(
                BridgeError::MaxRetriesExhausted {
                    attempts: MAX_RESTART_ATTEMPTS,
                    last_exit: self.last_exit.clone(),
                },
            ),
        }
    }

    /// Record that an attempt failed with `error`'s message.
    pub fn attempt_failed(&mut self, error: &BridgeError)
        requires
            old(self).attempt < MAX_RESTART_ATTEMPTS,
        ensures
            final(self).attempt == old(self).attempt + 1,
            final(self).last_exit@ == bridge_error_text(*error),
    {
        self.attempt = self.attempt + 1;
        self.last_exit = error.to_display_string();
    }
}

// ---------------------------------------------------------------------------
// Starting a bridge
// ---------------------------------------------------------------------------

/// Decide what to do with an existing registration for the same sandbox and
/// server before starting: `Ok(true)` to remove a stale one, `Ok(false)` when
/// there is none, `AlreadyRunning` when its bridge process is still alive
/// (`alive`, as checked by PID and start time).
pub fn existing_registration_check(
    existing: Option<&BridgeRegistration>,
    alive: bool,
    config: &BridgeConfig,
) -> (r: Result<bool, BridgeError>)
    ensures
        match existing {
            None => r == Ok::<bool, BridgeError>(false),
            Some(reg) => if alive {
                r matches Err(BridgeError::AlreadyRunning { sandbox, server, pid }) && sandbox
                    == config.sandbox && server == config.server_name && pid == reg.bridge_pid
            } else {
                r == Ok::<bool, BridgeError>(true)
            },
        },
{
    match existing {
        None => Ok(false),
        Some(reg) => {
            if alive {
                Err(
                    BridgeError::AlreadyRunning {
                        sandbox: config.sandbox.clone(),
                        server: config.server_name.clone(),
                        pid: reg.bridge_pid,
                    },
                )
            } else {
                Ok(true)
            }
        },
    }
}

/// The registration a bridge writes: running, on `port`, served by process
/// `pid` started at `start_time`.
pub fn running_registration(config: &BridgeConfig, pid: u32, port: u16, start_time: u64) -> (r:
    BridgeRegistration)
    ensures
        r.sandbox == config.sandbox,
        r.server_name == config.server_name,
        r.transport == Transport::StdioHttp,
        r.command@ == config.command@,
        r.bridge_pid == pid,
        r.forwarded_port == port,
        r.status == BridgeStatus::Running,
        r.process_start_time == Some(start_time),
{
    BridgeRegistration {
        sandbox: config.sandbox.clone(),
        server_name: config.server_name.clone(),
        transport: Transport::StdioHttp,
        command: clone_strings(&config.command),
        bridge_pid: pid,
        forwarded_port: port,
        status: BridgeStatus::Running,
        process_start_time: Some(start_time),
    }
}

/// Whether a process started at `actual` (seconds since the epoch) is the
/// one recorded as started at `expected`: within two seconds.
pub fn start_time_matches(actual: u64, expected: u64) -> (r: bool)
    ensures
        r <==> (if actual >= expected {
            actual - expected
        } else {
            expected - actual
        }) <= 2,
{
    if actual >= expected {
        actual - expected <= 2
    } else {
        expected - actual <= 2
    }
}

/// The command line of a command: its words joined by single spaces.
pub open spec fn command_line_of(words: Seq<String>) -> Seq<char>
    decreases words.len(),
{
    if words.len() == 0 {
        Seq::empty()
    } else if words.len() == 1 {
        words[0]@
    } else {
        command_line_of(words.drop_last()) + " "@ + words.last()@
    }
}

/// The command line of a command: its words joined by single spaces.
pub fn command_line(words: &Vec<String>) -> (r: String)
    ensures
        r@ == command_line_of(words@),
{
    let mut r = String::new();
    let mut i: usize = 0;
    while i < words.len()
        invariant
            i <= words@.len(),
            r@ == command_line_of(words@.take(i as int)),
        decreases words.len() - i,
    {
        if i > 0 {
            push_char(&mut r, ' ');
            proof {
                reveal_strlit(" ");
            }
        }
        push_str_chars(&mut r, words[i].as_str());
        proof {
            let t = words@.take(i + 1);
            assert(t.drop_last() =~= words@.take(i as int));
            if i == 0 {
                assert(words@.take(0) =~= Seq::<String>::empty());
            }
        }
        i = i + 1;
    }
    assert(words@.take(i as int) =~= words@);
    r
}

/// The error for a command that cannot be started: `StartupFailed` with an
/// empty command line for an empty command.
pub fn empty_command_check(command: &Vec<String>) -> (r: Result<(), BridgeError>)
    ensures
        command@.len() > 0 <==> r is Ok,
        r matches Err(e) ==> (e matches BridgeError::StartupFailed { command: c, reason } && c@
            == Seq::<char>::empty() && reason@ == "command is empty"@),
{
    if command.len() == 0 {
        Err(
            BridgeError::StartupFailed {
                command: String::new(),
                reason: to_owned_string("command is empty"),
            },
        )
    } else {
        Ok(())
    }
}

// ---------------------------------------------------------------------------
// JSON-RPC requests
// ---------------------------------------------------------------------------

/// Check the JSON-RPC 2.0 fields of a parsed request: `jsonrpc` must be the
/// string `"2.0"` and `method` must be a string.
pub fn check_jsonrpc_fields(jsonrpc: Option<&str>, method: Option<&str>) -> (r: Result<
    (),
    BridgeError,
>)
    ensures
        r is Ok <==> (jsonrpc matches Some(v) && v@ == "2.0"@) && method is Some,
        !(jsonrpc matches Some(v) && v@ == "2.0"@) ==> (r matches Err(
            BridgeError::InvalidJsonRpc { detail },
        ) && detail@ == "missing or invalid 'jsonrpc' field (expected \"2.0\")"@),
        (jsonrpc matches Some(v) && v@ == "2.0"@) && method is None ==> (r matches Err(
            BridgeError::InvalidJsonRpc { detail },
        ) && detail@ == "missing 'method' field in JSON-RPC request"@),
{
    let version_ok = match jsonrpc {
        Some(v) => str_eq(v, "2.0"),
        None => false,
    };
    if !version_ok {
        return Err(
            BridgeError::InvalidJsonRpc {
                detail: to_owned_string("missing or invalid 'jsonrpc' field (expected \"2.0\")"),
            },
        );
    }
    if method.is_none() {
        return Err(
            BridgeError::InvalidJsonRpc {
                detail: to_owned_string("missing 'method' field in JSON-RPC request"),
            },
        );
    }
    Ok(())
}

/// What the bridge does with a JSON-RPC request.
#[derive(Debug)]
pub enum RequestDisposition {
    /// Forward it to the MCP server.
    Forward,
    /// Answer with a "denied by policy" JSON-RPC error for this tool.
    Deny { tool: String, reason: String },
    /// Answer with an "Invalid Request" JSON-RPC error: a `tools/call`
    /// without `params.name`.
    MissingToolName,
}

/// What happens to a request with method `method` and, for `tools/call`,
/// tool name `tool`, under the server's policy (if it has one).
pub open spec fn disposition_of(
    method: Option<Seq<char>>,
    tool: Option<Seq<char>>,
    policy: Option<McpToolPolicy>,
) -> Option<Option<(Seq<char>, Seq<char>)>> {
    if method == Some("tools/call"@) {
        match tool {
            Some(t) => match policy {
                Some(p) => match tool_access(p, t) {
                    Some(reason) => Some(Some((t, reason))),
                    None => Some(None),
                },
                None => Some(None),
            },
            None => None,
        }
    } else {
        Some(None)
    }
}

/// The disposition as a value: `None` for a missing tool name, `Some(None)`
/// to forward, `Some(Some((tool, reason)))` to deny.
pub open spec fn disposition_view(d: RequestDisposition) -> Option<Option<(Seq<char>, Seq<char>)>> {
    match d {
        RequestDisposition::Forward => Some(None),
        RequestDisposition::Deny { tool, reason } => Some(Some((tool@, reason@))),
        RequestDisposition::MissingToolName => None,
    }
}

/// Decide what to do with a JSON-RPC request before it reaches the MCP
/// server.
///
/// Only `tools/call` is subject to policy: with a tool name (`params.name`)
/// and a policy for the server, a denied tool is answered with a denial; a
/// `tools/call` without a tool name is an invalid request. Every other
/// method (`tools/list`, `initialize`, …) is forwarded.
pub fn request_disposition(
    method: Option<&str>,
    tool_name: Option<&str>,
    policy: Option<&McpToolPolicy>,
) -> (r: RequestDisposition)
    ensures
        disposition_view(r) == disposition_of(
            match method {
                Some(m) => Some(m@),
                None => None,
            },
            match tool_name {
                Some(t) => Some(t@),
                None => None,
            },
            match policy {
                Some(p) => Some(*p),
                None => None,
            },
        ),
{
    let is_call = match method {
        Some(m) => str_eq(m, "tools/call"),
        None => false,
    };
    if !is_call {
        return RequestDisposition::Forward;
    }
    match tool_name {
        None => RequestDisposition::MissingToolName,
        Some(t) => match policy {
            None => RequestDisposition::Forward,
            Some(p) => match evaluate_tool_access(p, t) {
                PolicyDecision::Allow => RequestDisposition::Forward,
                PolicyDecision::Deny { reason } => RequestDisposition::Deny {
                    tool: to_owned_string(t),
                    reason,
                },
            },
        },
    }
}

/// Which log entry a completed request gets.
#[derive(Debug, Clone, Copy, PartialEq, Eq, Structural)]
pub enum RequestLogKind {
    /// A structured tool-call entry.
    ToolCall,
    /// A debug-level `tools/list` entry.
    ToolsList,
    /// No entry.
    Unlogged,
}

/// Which log entry a request with method `method` gets.
pub fn request_log_kind(method: Option<&str>) -> (r: RequestLogKind)
    ensures
        r == (match method {
            Some(m) => if m@ == "tools/call"@ {
                RequestLogKind::ToolCall
            } else if m@ == "tools/list"@ {
                RequestLogKind::ToolsList
            } else {
                RequestLogKind::Unlogged
            },
            None => RequestLogKind::Unlogged,
        }),
{
    match method {
        Some(m) => {
            if str_eq(m, "tools/call") {
                RequestLogKind::ToolCall
            } else if str_eq(m, "tools/list") {
                RequestLogKind::ToolsList
            } else {
                RequestLogKind::Unlogged
            }
        },
        None => RequestLogKind::Unlogged,
    }
}

// ---------------------------------------------------------------------------
// HTTP replies
// ---------------------------------------------------------------------------

/// An HTTP error reply: status code and the JSON body's `error` and
/// `detail` fields.
#[derive(Debug)]
pub struct ErrorReply {
    /// HTTP status code.
    pub status: u16,
    /// Short error description.
    pub error: String,
    /// Details.
    pub detail: String,
}

/// The reply to a request that cannot be served, if any, judged before the
/// body is read: only `POST` is accepted, and a body larger than
/// `MAX_BODY_SIZE` bytes (by a `Content-Length` header that parses as a
/// number, or by the body's own size bound, which is unbounded when absent)
/// is refused.
pub fn check_http_request(
    is_post: bool,
    content_length: Option<&str>,
    size_upper_bound: Option<u64>,
) -> (r: Option<ErrorReply>)
    ensures
        !is_post ==> (r matches Some(e) && e.status == 405 && e.error@ == "method not allowed"@
            && e.detail@ == "MCP bridge only accepts POST requests"@),
        is_post && (content_length matches Some(h) && parse_unsigned(h@, u64::MAX as nat) matches Some(n) && n > MAX_BODY_SIZE) ==> (r matches Some(e) && e.status == 413
            && e.error@ == "request body too large"@ && e.detail@ == "Content-Length "@ + decimal(
            parse_unsigned(content_length->0@, u64::MAX as nat)->0,
        ) + " exceeds maximum of 1048576 bytes"@),
        is_post && !(content_length matches Some(h) && parse_unsigned(h@, u64::MAX as nat) matches Some(n) && n > MAX_BODY_SIZE) && (match size_upper_bound {
            Some(u) => u > MAX_BODY_SIZE,
            None => true,
        }) ==> (r matches Some(e) && e.status == 413 && e.error@ == "request body too large"@
            && e.detail@ == "body size hint "@ + decimal(
            match size_upper_bound {
                Some(u) => u as nat,
                None => u64::MAX as nat,
            },
        ) + " exceeds maximum of 1048576 bytes"@),
        is_post && !(content_length matches Some(h) && parse_unsigned(h@, u64::MAX as nat) matches Some(n) && n > MAX_BODY_SIZE) && (size_upper_bound matches Some(u) && u
            <= MAX_BODY_SIZE) ==> r is None,
{
    if !is_post {
        return Some(
            ErrorReply {
                status: 405,
                error: to_owned_string("method not allowed"),
                detail: to_owned_string("MCP bridge only accepts POST requests"),
            },
        );
    }
    if let Some(h) = content_length {
        let hv = crate::text::chars_of(h);
        if let Some(len) = parse_u64(&hv) {
            if len > MAX_BODY_SIZE {
                let mut detail = to_owned_string("Content-Length ");
                push_str_chars(&mut detail, u64_to_decimal(len).as_str());
                push_str_chars(&mut detail, " exceeds maximum of 1048576 bytes");
                return Some(
                    ErrorReply {
                        status: 413,
                        error: to_owned_string("request body too large"),
                        detail,
                    },
                );
            }
        }
    }
    let upper = match size_upper_bound {
        Some(u) => u,
        None => u64::MAX,
    };
    if upper > MAX_BODY_SIZE {
        let mut detail = to_owned_string("body size hint ");
        push_str_chars(&mut detail, u64_to_decimal(upper).as_str());
        push_str_chars(&mut detail, " exceeds maximum of 1048576 bytes");
        return Some(
            ErrorReply { status: 413, error: to_owned_string("request body too large"), detail },
        );
    }
    None
}

/// The HTTP reply for a request the bridge could not answer: invalid
/// JSON-RPC from the server is a bad gateway (502), a subprocess failure
/// means the server is unavailable (503), anything else is an internal error
/// (500) carrying the error's message.
pub fn error_reply(e: &BridgeError) -> (r: ErrorReply)
    ensures
        match e {
            BridgeError::InvalidJsonRpc { detail } => r.status == 502 && r.error@
                == "MCP server returned invalid JSON-RPC"@ && r.detail@ == detail@,
            BridgeError::SubprocessIo { reason } => r.status == 503 && r.error@
                == "MCP server unavailable"@ && r.detail@ == reason@,
            _ => r.status == 500 && r.error@ == "internal bridge error"@ && r.detail@
                == bridge_error_text(*e),
        },
{
    match e {
        BridgeError::InvalidJsonRpc { detail } => ErrorReply {
            status: 502,
            error: to_owned_string("MCP server returned invalid JSON-RPC"),
            detail: detail.clone(),
        },
        BridgeError::SubprocessIo { reason } => ErrorReply {
            status: 503,
            error: to_owned_string("MCP server unavailable"),
            detail: reason.clone(),
        },
        _ => ErrorReply {
            status: 500,
            error: to_owned_string("internal bridge error"),
            detail: e.to_display_string(),
        },
    }
}

} // verus!

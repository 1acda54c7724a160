//! Sandbox observation events: what `darkshell sandbox watch` emits, and how
//! an event reads on a terminal.

use vstd::prelude::*;
use crate::inference_log::InferenceEvent;
use crate::text::{decimal, push_char, push_str_chars, to_owned_string, u64_to_decimal};

verus! {

// ---------------------------------------------------------------------------
// Time
// ---------------------------------------------------------------------------

/// A UTC instant: whole seconds since the Unix epoch and the nanoseconds
/// past that second (at or above one billion during a leap second).
#[derive(Debug, Clone, Copy, PartialEq, Eq, Structural)]
pub struct Timestamp {
    /// Seconds since 1970-01-01T00:00:00Z.
    pub secs: i64,
    /// Nanoseconds past `secs`.
    pub nanos: u32,
}

/// Reads the clock with `chrono::Utc::now`. The instant depends on the
/// time of the call; nothing is claimed of it.
#[verifier::external_body]
pub(crate) fn utc_now() -> (r: Timestamp) {
    let now = chrono::Utc::now();
    Timestamp { secs: now.timestamp(), nanos: now.timestamp_subsec_nanos() }
}

/// `n` written with at least `width` digits, zero-padded.
pub open spec fn padded(n: nat, width: nat) -> Seq<char>
    decreases width,
{
    if width <= 1 || decimal(n).len() >= width {
        decimal(n)
    } else {
        seq!['0'] + padded(n, (width - 1) as nat)
    }
}

/// The seconds into the UTC day of an instant.
pub open spec fn second_of_day(t: Timestamp) -> int {
    (t.secs as int) % 86400
}

/// An instant as a UTC clock time with milliseconds, `HH:MM:SS.mmm` (the
/// seconds read 60 during a leap second).
pub open spec fn clock_text(t: Timestamp) -> Seq<char> {
    let d = second_of_day(t);
    padded((d / 3600) as nat, 2) + ":"@ + padded(((d % 3600) / 60) as nat, 2) + ":"@ + padded(
        ((d % 60) + (t.nanos as int) / 1000000000) as nat,
        2,
    ) + "."@ + padded((((t.nanos as int) / 1000000) % 1000) as nat, 3)
}

/// Append `n` zero-padded to `width` digits (one to three).
fn push_padded(s: &mut String, n: u64, width: u64)
    requires
        1 <= width <= 3,
    ensures
        final(s)@ == old(s)@ + padded(n as nat, width as nat),
{
    let d = u64_to_decimal(n);
    let dv = crate::text::chars_of(d.as_str());
    let ghost dec = decimal(n as nat);
    let mut k: u64 = width;
    let mut zeros: u64 = 0;
    proof {
        reveal_with_fuel(padded, 4);
    }
    if (dv.len() as u64) < width {
        zeros = width - (dv.len() as u64);
    }
    let mut i: u64 = 0;
    while i < zeros
        invariant
            i <= zeros,
            zeros <= 3,
            s@ == old(s)@ + Seq::new(i as nat, |j: int| '0'),
        decreases zeros - i,
    {
        push_char(s, '0');
        assert(Seq::new((i + 1) as nat, |j: int| '0') =~= Seq::new(i as nat, |j: int| '0').push('0'));
        i = i + 1;
    }
    push_str_chars(s, d.as_str());
    proof {
        lemma_padded(n as nat, width as nat);
        assert(s@ =~= old(s)@ + padded(n as nat, width as nat));
    }
}

proof fn lemma_padded(n: nat, width: nat)
    requires
        1 <= width <= 3,
    ensures
        padded(n, width) == Seq::new(
            if decimal(n).len() < width {
                (width - decimal(n).len()) as nat
            } else {
                0
            },
            |j: int| '0',
        ) + decimal(n),
    decreases width,
{
    if width <= 1 || decimal(n).len() >= width {
        assert(Seq::new(0, |j: int| '0') + decimal(n) =~= decimal(n));
    } else {
        lemma_padded(n, (width - 1) as nat);
        let k = (width - decimal(n).len()) as nat;
        assert(seq!['0'] + Seq::new((k - 1) as nat, |j: int| '0') =~= Seq::new(k, |j: int| '0'));
        assert(seq!['0'] + (Seq::new((k - 1) as nat, |j: int| '0') + decimal(n)) =~= Seq::new(
            k,
            |j: int| '0',
        ) + decimal(n));
    }
}

/// The instant as a UTC clock time with milliseconds, `HH:MM:SS.mmm`.
pub fn clock_string(t: Timestamp) -> (r: String)
    ensures
        r@ == clock_text(t),
{
    let d: i64 = t.secs % 86400;
    let d: i64 = if d < 0 {
        d + 86400
    } else {
        d
    };
    assert(d == second_of_day(t));
    let mut r = String::new();
    push_padded(&mut r, (d / 3600) as u64, 2);
    push_str_chars(&mut r, ":");
    push_padded(&mut r, ((d % 3600) / 60) as u64, 2);
    push_str_chars(&mut r, ":");
    push_padded(&mut r, ((d % 60) as u64) + ((t.nanos / 1000000000) as u64), 2);
    push_str_chars(&mut r, ".");
    push_padded(&mut r, ((t.nanos / 1000000) % 1000) as u64, 3);
    r
}

// ---------------------------------------------------------------------------
// Events
// ---------------------------------------------------------------------------

/// Details of a command execution event.
#[derive(Debug, Clone, PartialEq, Eq)]
pub struct CommandEvent {
    /// The command that was executed.
    pub command: String,
    /// Exit code of the command (None if still running or unknown).
    pub exit_code: Option<i32>,
    /// Duration in milliseconds (None if still running or unknown).
    pub duration_ms: Option<u64>,
}

/// Details of a file change event.
#[derive(Debug, Clone, PartialEq, Eq)]
pub struct FileEvent {
    /// Path of the file that changed.
    pub path: String,
    /// Type of file operation (e.g. "create", "modify", "delete", "rename").
    pub operation: String,
    /// Process that caused the change (if known).
    pub process: Option<String>,
}

/// Details of a network request event.
#[derive(Debug, Clone, PartialEq, Eq)]
pub struct NetworkEvent {
    /// Target host.
    pub host: String,
    /// Target port.
    pub port: u16,
    /// HTTP method (if applicable).
    pub method: Option<String>,
    /// Policy result for this request ("allowed" or "denied").
    pub policy_result: String,
}

/// Details of a policy decision event.
#[derive(Debug, Clone, PartialEq, Eq)]
pub struct PolicyEvent {
    /// Action that was evaluated (e.g. `network_access`, `file_access`).
    pub action: String,
    /// Binary or process that triggered the policy check.
    pub binary: Option<String>,
    /// Target endpoint or resource.
    pub endpoint: Option<String>,
    /// Result of the policy evaluation ("allow" or "deny").
    pub result: String,
    /// Which policy rule matched (if any).
    pub rule_matched: Option<String>,
}

/// Details of an MCP tool call event.
#[derive(Debug, Clone, PartialEq, Eq)]
pub struct McpToolCallEvent {
    /// Name of the MCP tool that was called.
    pub tool_name: String,
    /// MCP server that handled the call.
    pub server: String,
    /// Duration in milliseconds (None if still running).
    pub duration_ms: Option<u64>,
    /// Whether the call succeeded.
    pub success: Option<bool>,
}

/// Details of a sandbox lifecycle event.
#[derive(Debug, Clone, PartialEq, Eq)]
pub struct LifecycleEvent {
    /// Current lifecycle phase (e.g. "provisioning", "ready", "deleted").
    pub phase: String,
    /// Previous lifecycle phase (None for the first event).
    pub previous_phase: Option<String>,
}

/// Internal watch metadata (overflow, parse errors).
#[derive(Debug, Clone, PartialEq, Eq)]
pub struct WatchMetaEvent {
    /// Number of events dropped due to channel overflow.
    pub overflow_count: Option<u64>,
    /// Byte offset in the log stream where a parse error occurred.
    pub parse_error_offset: Option<u64>,
    /// Human-readable description of the meta event.
    pub message: String,
}

/// Type-specific event payloads.
#[derive(Debug, Clone, PartialEq, Eq)]
#[non_exhaustive]
pub enum EventPayload {
    /// A command was executed inside the sandbox.
    CommandExecuted(CommandEvent),
    /// A file was changed inside the sandbox.
    FileChanged(FileEvent),
    /// A network request was made from the sandbox.
    NetworkRequest(NetworkEvent),
    /// A policy decision was made by the sandbox proxy/OPA.
    PolicyDecision(PolicyEvent),
    /// An MCP tool call was intercepted by the bridge daemon.
    McpToolCall(McpToolCallEvent),
    /// The sandbox lifecycle state changed.
    SandboxStateChange(LifecycleEvent),
    /// An inference request/response was captured by the proxy hook.
    Inference(InferenceEvent),
    /// Internal watch metadata event (overflow, parse errors).
    WatchMeta(WatchMetaEvent),
}

/// A sandbox event emitted by the watch stream: when, which sandbox, what.
#[derive(Debug, Clone, PartialEq, Eq)]
pub struct WatchEvent {
    timestamp: Timestamp,
    sandbox: String,
    payload: EventPayload,
}

/// The event type name of a payload.
pub open spec fn payload_type(p: EventPayload) -> Seq<char> {
    match p {
        EventPayload::CommandExecuted(_) => "command"@,
        EventPayload::FileChanged(_) => "file"@,
        EventPayload::NetworkRequest(_) => "network"@,
        EventPayload::PolicyDecision(_) => "policy"@,
        EventPayload::McpToolCall(_) => "mcp"@,
        EventPayload::SandboxStateChange(_) => "lifecycle"@,
        EventPayload::Inference(_) => "inference"@,
        EventPayload::WatchMeta(_) => "watch"@,
    }
}

/// An optional string, or a default when absent.
pub open spec fn or_default(o: Option<String>, d: Seq<char>) -> Seq<char> {
    match o {
        Some(s) => s@,
        None => d,
    }
}

/// A signed integer in decimal.
pub open spec fn signed_decimal(n: int) -> Seq<char> {
    if n < 0 {
        "-"@ + decimal((-n) as nat)
    } else {
        decimal(n as nat)
    }
}

/// The detail part of a payload's display.
pub open spec fn payload_detail(p: EventPayload) -> Seq<char> {
    match p {
        EventPayload::CommandExecuted(e) => e.command@ + " ["@ + match e.exit_code {
            Some(c) => "exit="@ + signed_decimal(c as int),
            None => "running"@,
        } + "]"@ + match e.duration_ms {
            Some(d) => " "@ + decimal(d as nat) + "ms"@,
            None => Seq::empty(),
        },
        EventPayload::FileChanged(e) => e.operation@ + " "@ + e.path@ + match e.process {
            Some(p) => " by "@ + p@,
            None => Seq::empty(),
        },
        EventPayload::NetworkRequest(e) => or_default(e.method, "TCP"@) + " "@ + e.host@ + ":"@
            + decimal(e.port as nat) + " ("@ + e.policy_result@ + ")"@,
        EventPayload::PolicyDecision(e) => e.action@ + " "@ + or_default(e.endpoint, "?"@)
            + " -> "@ + e.result@,
        EventPayload::McpToolCall(e) => e.tool_name@ + " via "@ + e.server@ + " ["@ + match e.success {
            Some(true) => "ok"@,
            Some(false) => "failed"@,
            None => "pending"@,
        } + "]"@,
        EventPayload::SandboxStateChange(e) => or_default(e.previous_phase, "none"@) + " -> "@
            + e.phase@,
        EventPayload::Inference(e) => e.model_provider@ + "/"@ + e.model@ + " ["@ + (if e.error {
            "error"@
        } else {
            "ok"@
        }) + "] "@ + decimal(e.latency_ms as nat) + "ms"@,
        EventPayload::WatchMeta(e) => e.message@,
    }
}

/// The ANSI color of an event type on a terminal.
pub open spec fn type_color(t: Seq<char>) -> Seq<char> {
    if t == "command"@ {
        "\x1b[36m"@
    } else if t == "file"@ {
        "\x1b[33m"@
    } else if t == "network"@ {
        "\x1b[35m"@
    } else if t == "policy"@ {
        "\x1b[31m"@
    } else if t == "mcp"@ {
        "\x1b[34m"@
    } else if t == "lifecycle"@ {
        "\x1b[32m"@
    } else if t == "inference"@ {
        "\x1b[93m"@
    } else {
        "\x1b[37m"@
    }
}

/// A label padded with spaces to ten characters.
pub open spec fn label10(t: Seq<char>) -> Seq<char> {
    t + Seq::new(if t.len() < 10 {
        (10 - t.len()) as nat
    } else {
        0
    }, |i: int| ' ')
}

/// How an event reads: `HH:MM:SS.mmm <type, padded to 10> <detail>`, with
/// the time dimmed and the type colored when `color` is set.
pub open spec fn human_text(ts: Timestamp, p: EventPayload, color: bool) -> Seq<char> {
    if color {
        "\x1b[2m"@ + clock_text(ts) + "\x1b[0m "@ + type_color(payload_type(p)) + label10(
            payload_type(p),
        ) + "\x1b[0m "@ + payload_detail(p)
    } else {
        clock_text(ts) + " "@ + label10(payload_type(p)) + " "@ + payload_detail(p)
    }
}

fn push_signed(s: &mut String, n: i32)
    ensures
        final(s)@ == old(s)@ + signed_decimal(n as int),
{
    if n < 0 {
        push_str_chars(s, "-");
        let m: u64 = (-(n as i64)) as u64;
        push_str_chars(s, u64_to_decimal(m).as_str());
    } else {
        push_str_chars(s, u64_to_decimal(n as u64).as_str());
    }
}

fn push_num(s: &mut String, n: u64)
    ensures
        final(s)@ == old(s)@ + decimal(n as nat),
{
    push_str_chars(s, u64_to_decimal(n).as_str());
}

fn push_opt(s: &mut String, o: &Option<String>, d: &str)
    ensures
        final(s)@ == old(s)@ + or_default(*o, d@),
{
    match o {
        Some(v) => push_str_chars(s, v.as_str()),
        None => push_str_chars(s, d),
    }
}

impl WatchEvent {
    /// When the event occurred.
    pub closed spec fn timestamp_spec(&self) -> Timestamp {
        self.timestamp
    }

    /// Which sandbox produced the event.
    pub closed spec fn sandbox_spec(&self) -> String {
        self.sandbox
    }

    /// The event's payload.
    pub closed spec fn payload_spec(&self) -> EventPayload {
        self.payload
    }

    /// Create an event stamped with the current UTC time.
    pub fn new(sandbox: &str, payload: EventPayload) -> (r: Self)
        ensures
            r.sandbox_spec()@ == sandbox@,
            r.payload_spec() == payload,
    {
        WatchEvent { timestamp: utc_now(), sandbox: to_owned_string(sandbox), payload }
    }

    /// Create an event with a given timestamp.
    pub fn at(timestamp: Timestamp, sandbox: &str, payload: EventPayload) -> (r: Self)
        ensures
            r.timestamp_spec() == timestamp,
            r.sandbox_spec()@ == sandbox@,
            r.payload_spec() == payload,
    {
        WatchEvent { timestamp, sandbox: to_owned_string(sandbox), payload }
    }

    /// The event type, computed from the payload variant.
    pub fn event_type(&self) -> (r: &'static str)
        ensures
            r@ == payload_type(self.payload_spec()),
    {
        match &self.payload {
            EventPayload::CommandExecuted(_) => "command",
            EventPayload::FileChanged(_) => "file",
            EventPayload::NetworkRequest(_) => "network",
            EventPayload::PolicyDecision(_) => "policy",
            EventPayload::McpToolCall(_) => "mcp",
            EventPayload::SandboxStateChange(_) => "lifecycle",
            EventPayload::Inference(_) => "inference",
            EventPayload::WatchMeta(_) => "watch",
        }
    }

    /// When the event occurred (UTC).
    pub fn timestamp(&self) -> (r: Timestamp)
        ensures
            r == self.timestamp_spec(),
    {
        self.timestamp
    }

    /// Which sandbox produced this event.
    pub fn sandbox(&self) -> (r: &str)
        ensures
            r@ == self.sandbox_spec()@,
    {
        self.sandbox.as_str()
    }

    /// Type-specific payload.
    pub fn payload(&self) -> (r: &EventPayload)
        ensures
            *r == self.payload_spec(),
    {
        &self.payload
    }

    /// The detail part of the event's display.
    fn detail(&self) -> (r: String)
        ensures
            r@ == payload_detail(self.payload_spec()),
    {
        let mut s = String::new();
        match &self.payload {
            EventPayload::CommandExecuted(e) => {
                push_str_chars(&mut s, e.command.as_str());
                push_str_chars(&mut s, " [");
                match e.exit_code {
                    Some(c) => {
                        push_str_chars(&mut s, "exit=");
                        push_signed(&mut s, c);
                    },
                    None => push_str_chars(&mut s, "running"),
                }
                push_str_chars(&mut s, "]");
                match e.duration_ms {
                    Some(d) => {
                        push_str_chars(&mut s, " ");
                        push_num(&mut s, d);
                        push_str_chars(&mut s, "ms");
                    },
                    None => {},
                }
                proof {
                    assert(s@ =~= payload_detail(self.payload));
                }
            },
            EventPayload::FileChanged(e) => {
                push_str_chars(&mut s, e.operation.as_str());
                push_str_chars(&mut s, " ");
                push_str_chars(&mut s, e.path.as_str());
                match &e.process {
                    Some(p) => {
                        push_str_chars(&mut s, " by ");
                        push_str_chars(&mut s, p.as_str());
                    },
                    None => {},
                }
                proof {
                    assert(s@ =~= payload_detail(self.payload));
                }
            },
            EventPayload::NetworkRequest(e) => {
                push_opt(&mut s, &e.method, "TCP");
                push_str_chars(&mut s, " ");
                push_str_chars(&mut s, e.host.as_str());
                push_str_chars(&mut s, ":");
                push_num(&mut s, e.port as u64);
                push_str_chars(&mut s, " (");
                push_str_chars(&mut s, e.policy_result.as_str());
                push_str_chars(&mut s, ")");
            },
            EventPayload::PolicyDecision(e) => {
                push_str_chars(&mut s, e.action.as_str());
                push_str_chars(&mut s, " ");
                push_opt(&mut s, &e.endpoint, "?");
                push_str_chars(&mut s, " -> ");
                push_str_chars(&mut s, e.result.as_str());
            },
            EventPayload::McpToolCall(e) => {
                push_str_chars(&mut s, e.tool_name.as_str());
                push_str_chars(&mut s, " via ");
                push_str_chars(&mut s, e.server.as_str());
                push_str_chars(&mut s, " [");
                match e.success {
                    Some(true) => push_str_chars(&mut s, "ok"),
                    Some(false) => push_str_chars(&mut s, "failed"),
                    None => push_str_chars(&mut s, "pending"),
                }
                push_str_chars(&mut s, "]");
                proof {
                    assert(s@ =~= payload_detail(self.payload));
                }
            },
            EventPayload::SandboxStateChange(e) => {
                push_opt(&mut s, &e.previous_phase, "none");
                push_str_chars(&mut s, " -> ");
                push_str_chars(&mut s, e.phase.as_str());
            },
            EventPayload::Inference(e) => {
                push_str_chars(&mut s, e.model_provider.as_str());
                push_str_chars(&mut s, "/");
                push_str_chars(&mut s, e.model.as_str());
                push_str_chars(&mut s, " [");
                if e.error {
                    push_str_chars(&mut s, "error");
                } else {
                    push_str_chars(&mut s, "ok");
                }
                push_str_chars(&mut s, "] ");
                push_num(&mut s, e.latency_ms);
                push_str_chars(&mut s, "ms");
                proof {
                    assert(s@ =~= payload_detail(self.payload));
                }
            },
            EventPayload::WatchMeta(e) => {
                push_str_chars(&mut s, e.message.as_str());
            },
        }
        s
    }

    /// Format this event for human-readable display: the UTC time with
    /// milliseconds, the event type padded to ten characters, and the
    /// detail. With `color`, the time is dimmed and the type colored with
    /// ANSI escape codes; without, the text is plain.
    pub fn to_human_readable(&self, color: bool) -> (r: String)
        ensures
            r@ == human_text(self.timestamp_spec(), self.payload_spec(), color),
    {
        let ts = clock_string(self.timestamp);
        let label = self.event_type();
        let detail = self.detail();
        let mut s = String::new();
        if color {
            push_str_chars(&mut s, "\x1b[2m");
            push_str_chars(&mut s, ts.as_str());
            push_str_chars(&mut s, "\x1b[0m ");
            push_str_chars(&mut s, color_code(label));
        } else {
            push_str_chars(&mut s, ts.as_str());
            push_str_chars(&mut s, " ");
        }
        push_label10(&mut s, label);
        if color {
            push_str_chars(&mut s, "\x1b[0m ");
        } else {
            push_str_chars(&mut s, " ");
        }
        push_str_chars(&mut s, detail.as_str());
        proof {
            assert(s@ =~= human_text(self.timestamp, self.payload, color));
        }
        s
    }
}

fn color_code(t: &str) -> (r: &'static str)
    ensures
        r@ == type_color(t@),
{
    if crate::text::str_eq(t, "command") {
        "\x1b[36m"
    } else if crate::text::str_eq(t, "file") {
        "\x1b[33m"
    } else if crate::text::str_eq(t, "network") {
        "\x1b[35m"
    } else if crate::text::str_eq(t, "policy") {
        "\x1b[31m"
    } else if crate::text::str_eq(t, "mcp") {
        "\x1b[34m"
    } else if crate::text::str_eq(t, "lifecycle") {
        "\x1b[32m"
    } else if crate::text::str_eq(t, "inference") {
        "\x1b[93m"
    } else {
        "\x1b[37m"
    }
}

fn push_label10(s: &mut String, t: &str)
    ensures
        final(s)@ == old(s)@ + label10(t@),
{
    let v = crate::text::chars_of(t);
    push_str_chars(s, t);
    let ghost mid = s@;
    let mut n: usize = v.len();
    while n < 10
        invariant
            v@ == t@,
            v@.len() <= n <= 10 || (n == v@.len() && n >= 10),
            s@ == mid + Seq::new((n - v@.len()) as nat, |i: int| ' '),
        decreases 10 - n,
    {
        push_char(s, ' ');
        assert(Seq::new((n + 1 - v@.len()) as nat, |i: int| ' ') =~= Seq::new(
            (n - v@.len()) as nat,
            |i: int| ' ',
        ).push(' '));
        n = n + 1;
    }
    assert(s@ =~= old(s)@ + label10(t@));
}


proof fn lemma_suffix_of_concat(a: Seq<char>, b: Seq<char>)
    ensures
        b.is_suffix_of(a + b),
{
    assert(b =~= (a + b).subrange(a.len() as int, (a + b).len() as int));
}

/// A file-change event reads, at its end, as its operation, a space and
/// its path, followed by " by " and the process that changed the file
/// when one is known.
pub proof fn lemma_file_change_line_names_process(ts: Timestamp, e: FileEvent, color: bool)
    ensures
        (e.operation@ + " "@ + e.path@ + match e.process {
            Some(p) => " by "@ + p@,
            None => Seq::empty(),
        }).is_suffix_of(human_text(ts, EventPayload::FileChanged(e), color)),
        e.process matches Some(p) ==> (" by "@ + p@).is_suffix_of(
            human_text(ts, EventPayload::FileChanged(e), color),
        ),
{
    let p = EventPayload::FileChanged(e);
    let tail = match e.process {
        Some(q) => " by "@ + q@,
        None => Seq::<char>::empty(),
    };
    let d = e.operation@ + " "@ + e.path@ + tail;
    assert(payload_detail(p) == d);
    let head = if color {
        "\x1b[2m"@ + clock_text(ts) + "\x1b[0m "@ + type_color(payload_type(p)) + label10(
            payload_type(p),
        ) + "\x1b[0m "@
    } else {
        clock_text(ts) + " "@ + label10(payload_type(p)) + " "@
    };
    assert(human_text(ts, p, color) =~= head + d);
    lemma_suffix_of_concat(head, d);
    if let Some(q) = e.process {
        assert(d =~= (e.operation@ + " "@ + e.path@) + (" by "@ + q@));
        lemma_suffix_of_concat(head + e.operation@ + " "@ + e.path@, " by "@ + q@);
        assert(human_text(ts, p, color) =~= (head + e.operation@ + " "@ + e.path@) + (" by "@ + q@));
    }
}

} // verus!
